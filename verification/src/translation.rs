//! Message templates by key, with `%s` placeholders.
use vstd::prelude::*;

use ahash::AHashMap;

verus! {

#[verifier::external_type_specification]
#[verifier::external_body]
#[verifier::reject_recursive_types(K)]
#[verifier::reject_recursive_types(V)]
#[verifier::reject_recursive_types(H)]
pub struct ExAHashMap<K, V, H>(AHashMap<K, V, H>);

#[verifier::external_type_specification]
#[verifier::external_body]
pub struct ExRandomState(ahash::RandomState);

/// A map of templates: message key to template.
pub type Templates = AHashMap<String, String>;

/// The entries of a map of templates, by the characters of key and value.
pub uninterp spec fn template_entries(m: Templates) -> Map<Seq<char>, Seq<char>>;

/// No templates at all.
pub open spec fn no_templates() -> Map<Seq<char>, Seq<char>> {
    Map::empty()
}

/// The map from string to string that a JSON text denotes: `None` when
/// the text is not a JSON object whose values are all strings. Of a key
/// given twice, the last value counts.
pub uninterp spec fn json_string_map(text: Seq<char>) -> Option<Map<Seq<char>, Seq<char>>>;

/// `serde_json::from_str` into a map of templates: the map that the text
/// denotes, or `None` when it denotes none.
#[verifier::external_body]
fn templates_from_json(text: &str) -> (r: Option<Templates>)
    ensures
        r matches Some(m) ==> json_string_map(text@) == Some(template_entries(m)),
        r is None <==> json_string_map(text@) is None,
{
    serde_json::from_str::<Templates>(text).ok()
}

/// `serde_json::to_string_pretty` of a map of templates: a JSON object of
/// its entries, in the order that the map is walked, which its hasher's
/// seed decides. Whatever that order, the text denotes the map's entries.
/// serde_json fails only where a `Serialize` impl fails or a map key is not
/// a string; the keys and values here are strings, so it always succeeds.
#[verifier::external_body]
fn templates_to_json(m: &Templates) -> (r: Option<String>)
    ensures
        r is Some,
        r matches Some(t) ==> json_string_map(t@) == Some(template_entries(*m)),
{
    serde_json::to_string_pretty(m).ok()
}

/// `AHashMap::new`: an empty map.
#[verifier::external_body]
fn templates_new() -> (r: Templates)
    ensures
        template_entries(r) == no_templates(),
{
    AHashMap::new()
}

/// `AHashMap::insert`: maps `k` to `v`, replacing what `k` mapped to.
#[verifier::external_body]
fn templates_insert(m: &mut Templates, k: String, v: String)
    ensures
        template_entries(*final(m)) == template_entries(*old(m)).insert(k@, v@),
{
    m.insert(k, v);
}

/// `AHashMap::get` with a `&str` key: the value that the key maps to.
#[verifier::external_body]
fn templates_get<'a>(m: &'a Templates, k: &str) -> (r: Option<&'a String>)
    ensures
        r is None ==> !template_entries(*m).contains_key(k@),
        r matches Some(v) ==> template_entries(*m).contains_key(k@) && v@ == template_entries(
            *m,
        )[k@],
{
    m.get(k)
}

/// `AHashMap::len`: the number of entries.
#[verifier::external_body]
fn templates_len(m: &Templates) -> (r: usize)
    ensures
        r == template_entries(*m).len(),
{
    m.len()
}

/// Whether `pat` occurs in `s` at index `i`.
#[verifier::opaque]
pub open spec fn occurs_at(s: Seq<char>, pat: Seq<char>, i: int) -> bool {
    0 <= i && i + pat.len() <= s.len() && s.subrange(i, i + pat.len()) == pat
}

/// `s` with the first occurrence of `pat` replaced by `with`; `s` itself
/// when `pat` does not occur.
pub open spec fn replace_first(s: Seq<char>, pat: Seq<char>, with: Seq<char>) -> Seq<char> {
    if exists|i: int| #[trigger] occurs_at(s, pat, i) {
        let i = choose|i: int|
            #[trigger] occurs_at(s, pat, i) && forall|j: int| 0 <= j < i ==> !#[trigger] occurs_at(s, pat, j);
        s.take(i) + with + s.skip(i + pat.len())
    } else {
        s
    }
}

/// The placeholder of a template.
pub open spec fn placeholder() -> Seq<char> {
    seq!['%', 's']
}

/// Whether a placeholder `%s` starts at index `i` of `s`.
pub open spec fn placeholder_at(s: Seq<char>, i: int) -> bool {
    occurs_at(s, placeholder(), i)
}

/// `s` with its first placeholder replaced by `with`; `s` itself when it
/// has none.
pub open spec fn replace_first_placeholder(s: Seq<char>, with: Seq<char>) -> Seq<char> {
    replace_first(s, placeholder(), with)
}

/// `str::replacen(pat, with, 1)`: `s` with the first occurrence of `pat`
/// replaced by `with`.
#[verifier::external_body]
fn replacen_once(s: &str, pat: &str, with: &str) -> (r: String)
    ensures
        r@ == replace_first(s@, pat@, with@),
{
    s.replacen(pat, with, 1)
}

/// A template with its placeholders filled in order by `entries`, each
/// entry into the first placeholder left.
pub open spec fn fill_placeholders(s: Seq<char>, entries: Seq<Seq<char>>) -> Seq<char>
    decreases entries.len(),
{
    if entries.len() == 0 {
        s
    } else {
        replace_first_placeholder(fill_placeholders(s, entries.drop_last()), entries.last())
    }
}

/// Message templates by key.
pub struct TranslationManager {
    keys: Templates,
}

impl TranslationManager {
    /// The templates, by key.
    pub closed spec fn templates(&self) -> Map<Seq<char>, Seq<char>> {
        template_entries(self.keys)
    }

    /// The templates that the server starts with.
    pub open spec fn default_templates() -> Map<Seq<char>, Seq<char>> {
        map![
            "multiplayer.player.joined"@ => "%s joined the game."@,
            "multiplayer.player.left"@ => "%s left the game."@,
            "multiplayer.disconnect.server_shutdown"@ => "Server closed"@,
            "chat.type.text"@ => "<%s> %s"@,
        ]
    }

    /// The manager of the given templates.
    pub fn from_keys(keys: Templates) -> (r: Self)
        ensures
            r.templates() == template_entries(keys),
    {
        Self { keys }
    }

    /// The manager of the templates of a JSON text: an object from message
    /// key to template. `None` when the text is no such object.
    pub fn from_json(text: &str) -> (r: Option<Self>)
        ensures
            r matches Some(t) ==> json_string_map(text@) == Some(t.templates()),
            r is None <==> json_string_map(text@) is None,
    {
        match templates_from_json(text) {
            Some(keys) => Some(Self { keys }),
            None => None,
        }
    }

    /// The templates as a JSON text: an object from message key to
    /// template, pretty-printed, whose entries come in the map's own order.
    pub fn to_json(&self) -> (r: Option<String>)
        ensures
            r is Some,
            r matches Some(t) ==> json_string_map(t@) == Some(self.templates()),
    {
        templates_to_json(&self.keys)
    }

    /// The number of templates.
    pub fn len(&self) -> (r: usize)
        ensures
            r == self.templates().len(),
    {
        templates_len(&self.keys)
    }

    /// The template for `input` with its placeholders filled by `format` in
    /// order; the template as it is without `format`; `input` itself when
    /// there is no template for it.
    pub fn translate(&self, input: &str, format: Option<Vec<String>>) -> (r: String)
        ensures
            !self.templates().contains_key(input@) ==> r@ == input@,
            self.templates().contains_key(input@) ==> r@ == match format {
                Some(f) => fill_placeholders(
                    self.templates()[input@],
                    f@.map_values(|e: String| e@),
                ),
                None => self.templates()[input@],
            },
    {
        if let Some(value) = templates_get(&self.keys, input) {
            if let Some(format) = format {
                let ghost entries = format@.map_values(|e: String| e@);
                let mut value = value.clone();
                let mut i: usize = 0;
                while i < format.len()
                    invariant
                        i <= format@.len(),
                        entries == format@.map_values(|e: String| e@),
                        self.templates().contains_key(input@),
                        value@ == fill_placeholders(
                            self.templates()[input@],
                            entries.take(i as int),
                        ),
                    decreases format@.len() - i,
                {
                    proof {
                        assert(entries.take(i as int + 1).drop_last() =~= entries.take(i as int));
                    }
                    let pat = "%s";
                    proof {
                        reveal_strlit("%s");
                        assert(pat@ =~= placeholder());
                    }
                    value = replacen_once(value.as_str(), pat, format[i].as_str());
                    i = i + 1;
                }
                assert(entries.take(i as int) =~= entries);
                value
            } else {
                value.clone()
            }
        } else {
            input.to_owned()
        }
    }
}

impl Default for TranslationManager {
    fn default() -> (r: Self)
        ensures
            r.templates() == Self::default_templates(),
    {
        let mut keys = templates_new();
        templates_insert(
            &mut keys,
            "multiplayer.player.joined".to_owned(),
            "%s joined the game.".to_owned(),
        );
        templates_insert(&mut keys, "multiplayer.player.left".to_owned(), "%s left the game.".to_owned());
        templates_insert(
            &mut keys,
            "multiplayer.disconnect.server_shutdown".to_owned(),
            "Server closed".to_owned(),
        );
        templates_insert(&mut keys, "chat.type.text".to_owned(), "<%s> %s".to_owned());
        assert(template_entries(keys) =~= Self::default_templates());
        Self { keys }
    }
}

/// A template without placeholders comes out unchanged, whatever the
/// entries.
pub proof fn law_no_placeholder_no_change(s: Seq<char>, entries: Seq<Seq<char>>)
    requires
        forall|i: int| !placeholder_at(s, i),
    ensures
        fill_placeholders(s, entries) == s,
    decreases entries.len(),
{
    if entries.len() > 0 {
        law_no_placeholder_no_change(s, entries.drop_last());
        assert forall|i: int| !#[trigger] occurs_at(s, placeholder(), i) by {
            assert(!placeholder_at(s, i));
        }
    }
}

} // verus!
