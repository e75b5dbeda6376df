//! The first world store: chunks of blocks in one flat array each, and the
//! small flat world that the server generated before it had terrain.
use vstd::prelude::*;

use super::ChunkCoords;

verus! {

/// A block of the flat store.
#[derive(Clone, Copy)]
pub struct Block {
    pub b_type: u8,
    pub b_metadata: u8,
    b_light: u8,
    b_skylight: u8,
}

impl Block {
    /// Type, metadata, block light and sky light.
    pub closed spec fn parts(&self) -> (u8, u8, u8, u8) {
        (self.b_type, self.b_metadata, self.b_light, self.b_skylight)
    }

    pub fn set_type(&mut self, block_type: u8)
        ensures
            final(self).parts() == (block_type, old(self).parts().1, old(self).parts().2, old(
                self,
            ).parts().3),
    {
        self.b_type = block_type;
    }

    pub fn get_type(&self) -> (r: u8)
        ensures
            r == self.parts().0,
    {
        self.b_type
    }
}

/// A chunk of the flat store: its coordinates and its blocks.
#[derive(Clone)]
pub struct Chunk {
    x: i32,
    z: i32,
    data: Vec<Block>,
}

/// The flat store: a list of chunks.
pub struct World {
    chunks: Vec<Chunk>,
}

/// `a % 16` as Rust computes it on `i32`: the remainder takes the sign of `a`.
pub open spec fn rem_toward_zero(a: int, m: int) -> int {
    if a >= 0 {
        a % m
    } else {
        -((-a) % m)
    }
}

/// `a / m` as Rust computes it on `i32`: rounded toward zero.
pub open spec fn div_toward_zero(a: int, m: int) -> int {
    if a >= 0 {
        a / m
    } else {
        -((-a) / m)
    }
}

/// The array index that `pos_to_index` gives a position: the coordinates
/// within the chunk (negative ones mirrored), two blocks up, laid out
/// column by column, less an offset that grows with x and z; never below 0.
pub open spec fn spec_pos_to_index(x: i32, y: i32, z: i32) -> int {
    let x1 = rem_toward_zero(x as int, 16);
    let y1 = rem_toward_zero(y as int, 128);
    let z1 = rem_toward_zero(z as int, 16);
    let x2 = if x1 < 0 {
        -x1
    } else {
        x1
    };
    let z2 = if z1 < 0 {
        -z1
    } else {
        z1
    };
    let v = (y1 + 2) + z2 * 128 + x2 * 128 * 16 - (1 + 2 * z2 + 32 * x2);
    if v > 0 {
        v
    } else {
        0
    }
}

fn rem_16(a: i32) -> (r: i32)
    ensures
        r == rem_toward_zero(a as int, 16),
{
    if a >= 0 {
        a % 16
    } else if a == i32::MIN {
        0
    } else {
        -((-a) % 16)
    }
}

fn rem_128(a: i32) -> (r: i32)
    ensures
        r == rem_toward_zero(a as int, 128),
{
    if a >= 0 {
        a % 128
    } else if a == i32::MIN {
        0
    } else {
        -((-a) % 128)
    }
}

fn div_16(a: i32) -> (r: i32)
    ensures
        r == div_toward_zero(a as int, 16),
{
    if a >= 0 {
        a / 16
    } else if a == i32::MIN {
        -134217728
    } else {
        -((-a) / 16)
    }
}

/// The blocks of a generated chunk: 256 columns of 126 blocks, each 15 of
/// stone under 111 of air, but for the second column, which has 10 of glass
/// under its 5 of stone.
pub open spec fn generated_block(i: int) -> (u8, u8, u8, u8) {
    let column = i / 126;
    let row = i % 126;
    if row < 15 {
        if column == 1 && row < 10 {
            (20, 0, 0, 0)
        } else {
            (1, 0, 0, 15)
        }
    } else {
        (0, 0, 0, 15)
    }
}

impl Chunk {
    pub closed spec fn coords(&self) -> (i32, i32) {
        (self.x, self.z)
    }

    /// The parts of each block, in storage order.
    pub closed spec fn blocks(&self) -> Seq<(u8, u8, u8, u8)> {
        self.data@.map_values(|b: Block| b.parts())
    }
}

impl World {
    pub closed spec fn chunks(&self) -> Seq<Chunk> {
        self.chunks@
    }

    /// The array index of a position within its chunk.
    pub fn pos_to_index(x: i32, y: i32, z: i32) -> (r: usize)
        ensures
            r == spec_pos_to_index(x, y, z),
    {
        let mut x = rem_16(x);
        let mut y = rem_128(y);
        let mut z = rem_16(z);
        if x < 0 {
            x = -x % 16;
        }
        if z < 0 {
            z = -z % 16;
        }
        y += 2;
        let mut offset: i32 = 1;
        let mut i: i32 = 0;
        while i < z
            invariant
                0 <= i <= z < 16,
                offset == 1 + 2 * i,
            decreases z - i,
        {
            offset += 2;
            i += 1;
        }
        let mut i: i32 = 0;
        while i < x
            invariant
                0 <= i <= x < 16,
                0 <= z < 16,
                offset == 1 + 2 * z + 32 * i,
            decreases x - i,
        {
            offset += 32;
            i += 1;
        }
        let v = (y + z * 128 + x * 128 * 16) - offset;
        if v > 0 {
            v as usize
        } else {
            0
        }
    }

    /// Whether a chunk with the given coordinates is stored.
    pub fn check_chunk_exists(&self, coords: ChunkCoords) -> (r: bool)
        ensures
            r == exists|i: int|
                0 <= i < self.chunks().len() && #[trigger] self.chunks()[i].coords() == (
                    coords.x,
                    coords.z,
                ),
    {
        let mut i: usize = 0;
        while i < self.chunks.len()
            invariant
                i <= self.chunks@.len(),
                forall|j: int|
                    0 <= j < i ==> #[trigger] self.chunks@[j].coords() != (coords.x, coords.z),
            decreases self.chunks@.len() - i,
        {
            if self.chunks[i].x == coords.x && self.chunks[i].z == coords.z {
                assert(self.chunks()[i as int].coords() == (coords.x, coords.z));
                return true;
            }
            i += 1;
        }
        false
    }
}

/// Where a block of a generated chunk lies: column `c`, row `r`.
proof fn lemma_generated_at(c: int, r: int)
    requires
        0 <= c,
        0 <= r < 126,
    ensures
        generated_block(126 * c + r) == (if r < 15 {
            if c == 1 && r < 10 {
                (20u8, 0u8, 0u8, 0u8)
            } else {
                (1u8, 0u8, 0u8, 15u8)
            }
        } else {
            (0u8, 0u8, 0u8, 15u8)
        }),
{
    vstd::arithmetic::div_mod::lemma_fundamental_div_mod_converse(126 * c + r, 126, c, r);
}

/// Appends `n` copies of `b`.
fn append_copies(blocks: &mut Vec<Block>, b: Block, n: usize)
    ensures
        final(blocks)@.len() == old(blocks)@.len() + n,
        forall|k: int| 0 <= k < old(blocks)@.len() ==> final(blocks)@[k] == old(blocks)@[k],
        forall|k: int|
            old(blocks)@.len() <= k < final(blocks)@.len() ==> #[trigger] final(blocks)@[k] == b,
{
    let mut more = vec![b; n];
    blocks.append(&mut more);
}

impl World {
    /// The flat world: 16 chunks, for x and then z from -2 to 1, all of
    /// them the generated chunk.
    pub fn crappy_generate() -> (r: Self)
        ensures
            r.chunks().len() == 16,
            forall|i: int| 0 <= i < 16 ==> #[trigger] r.chunks()[i].coords().0 == -2 + i / 4,
            forall|i: int| 0 <= i < 16 ==> #[trigger] r.chunks()[i].coords().1 == -2 + i % 4,
            forall|i: int|
                0 <= i < 16 ==> #[trigger] r.chunks()[i].blocks() == Seq::new(
                    32256,
                    |k: int| generated_block(k),
                ),
    {
        let mut world = Self { chunks: Vec::new() };
        let mut blocks: Vec<Block> = Vec::new();
        let stone = Block { b_type: 1, b_metadata: 0, b_light: 0, b_skylight: 15 };
        let glass = Block { b_type: 20, b_metadata: 0, b_light: 0, b_skylight: 0 };
        let air = Block { b_type: 0, b_metadata: 0, b_light: 0, b_skylight: 15 };
        let mut first = true;
        let mut doit = false;
        let mut c: usize = 0;
        while c < 256
            invariant
                c <= 256,
                blocks@.len() == 126 * c,
                forall|k: int| 0 <= k < blocks@.len() ==> #[trigger] blocks@[k].parts() == generated_block(k),
                c == 0 ==> first && !doit,
                c == 1 ==> !first && doit,
                c >= 2 ==> !first && !doit,
                stone.parts() == (1u8, 0u8, 0u8, 15u8),
                glass.parts() == (20u8, 0u8, 0u8, 0u8),
                air.parts() == (0u8, 0u8, 0u8, 15u8),
            decreases 256 - c,
        {
            let ghost before = blocks@;
            let height: usize = 16;
            if !doit {
                append_copies(&mut blocks, stone, height - 1);
                assert(forall|k: int| 126 * c <= k < 126 * c + 15 ==> #[trigger] blocks@[k] == stone);
            } else {
                let mut i: usize = 0;
                while i < 10
                    invariant
                        i <= 10,
                        blocks@.len() == 126 * c + i,
                        forall|k: int| 0 <= k < 126 * c ==> #[trigger] blocks@[k] == before[k],
                        forall|k: int| 126 * c <= k < blocks@.len() ==> #[trigger] blocks@[k] == glass,
                    decreases 10 - i,
                {
                    blocks.push(glass);
                    i += 1;
                }
                append_copies(&mut blocks, stone, height - 11);
                assert(forall|k: int| 126 * c <= k < 126 * c + 10 ==> #[trigger] blocks@[k] == glass);
                assert(forall|k: int|
                    126 * c + 10 <= k < 126 * c + 15 ==> #[trigger] blocks@[k] == stone);
                doit = false;
            }
            assert(blocks@.len() == 126 * c + 15);
            assert(forall|k: int| 0 <= k < 126 * c ==> #[trigger] blocks@[k] == before[k]);
            if first {
                first = false;
                doit = true;
            }
            let ghost mid = blocks@;
            append_copies(&mut blocks, air, 127 - height);
            proof {
                assert forall|k: int| 0 <= k < blocks@.len() implies #[trigger] blocks@[k].parts()
                    == generated_block(k) by {
                    if k >= 126 * c {
                        lemma_generated_at(c as int, k - 126 * c);
                        if k < 126 * c + 15 {
                            assert(blocks@[k] == mid[k]);
                        }
                    } else {
                        assert(blocks@[k] == before[k]);
                    }
                }
            }
            c += 1;
        }
        let ghost expected = Seq::new(32256, |k: int| generated_block(k));
        assert(blocks@.map_values(|b: Block| b.parts()) =~= expected);
        let mut x: i32 = -2;
        while x < 2
            invariant
                -2 <= x <= 2,
                world.chunks@.len() == 4 * (x + 2),
                blocks@.map_values(|b: Block| b.parts()) == expected,
                expected == Seq::new(32256, |k: int| generated_block(k)),
                forall|i: int|
                    0 <= i < world.chunks@.len() ==> #[trigger] world.chunks@[i].coords().0 == -2
                        + i / 4,
                forall|i: int|
                    0 <= i < world.chunks@.len() ==> #[trigger] world.chunks@[i].coords().1 == -2
                        + i % 4,
                forall|i: int|
                    0 <= i < world.chunks@.len() ==> #[trigger] world.chunks@[i].blocks() == expected,
            decreases 2 - x,
        {
            let mut z: i32 = -2;
            while z < 2
                invariant
                    -2 <= x < 2,
                    -2 <= z <= 2,
                    world.chunks@.len() == 4 * (x + 2) + (z + 2),
                    blocks@.map_values(|b: Block| b.parts()) == expected,
                    forall|i: int|
                        0 <= i < world.chunks@.len() ==> #[trigger] world.chunks@[i].coords().0 == -2
                            + i / 4,
                    forall|i: int|
                        0 <= i < world.chunks@.len() ==> #[trigger] world.chunks@[i].coords().1 == -2
                            + i % 4,
                    forall|i: int|
                        0 <= i < world.chunks@.len() ==> #[trigger] world.chunks@[i].blocks()
                            == expected,
                decreases 2 - z,
            {
                let data = blocks.clone();
                assert(data@.map_values(|b: Block| b.parts()) =~= blocks@.map_values(
                    |b: Block| b.parts(),
                ));
                let ghost n = world.chunks@.len() as int;
                proof {
                    vstd::arithmetic::div_mod::lemma_fundamental_div_mod_converse(
                        n,
                        4,
                        x + 2,
                        z + 2,
                    );
                }
                if x == 0 && z == 0 {
                    world.chunks.push(Chunk { x: x, z: z, data });
                } else {
                    world.chunks.push(Chunk { x: x, z: z, data });
                }
                z += 1;
            }
            x += 1;
        }
        world
    }
}

/// The index of the first chunk with the given coordinates, if any.
pub open spec fn first_chunk(chunks: Seq<Chunk>, cx: int, cz: int) -> Option<int>
    decreases chunks.len(),
{
    if chunks.len() == 0 {
        None
    } else if chunks[0].coords().0 == cx && chunks[0].coords().1 == cz {
        Some(0)
    } else {
        match first_chunk(chunks.skip(1), cx, cz) {
            Some(i) => Some(i + 1),
            None => None,
        }
    }
}

proof fn lemma_first_chunk_found(chunks: Seq<Chunk>, i: int, cx: int, cz: int)
    requires
        0 <= i < chunks.len(),
        chunks[i].coords().0 == cx && chunks[i].coords().1 == cz,
        forall|j: int|
            0 <= j < i ==> !(chunks[j].coords().0 == cx && chunks[j].coords().1 == cz),
    ensures
        first_chunk(chunks, cx, cz) == Some(i),
    decreases i,
{
    if i > 0 {
        lemma_first_chunk_found(chunks.skip(1), i - 1, cx, cz);
    }
}

proof fn lemma_first_chunk_absent(chunks: Seq<Chunk>, cx: int, cz: int)
    requires
        forall|j: int|
            0 <= j < chunks.len() ==> !(chunks[j].coords().0 == cx && chunks[j].coords().1 == cz),
    ensures
        first_chunk(chunks, cx, cz) is None,
    decreases chunks.len(),
{
    if chunks.len() > 0 {
        lemma_first_chunk_absent(chunks.skip(1), cx, cz);
    }
}

impl World {
    /// The block at the given position, in the first chunk whose
    /// coordinates are the position's divided by 16 (rounded toward zero),
    /// at `pos_to_index`; `None` when there is no such chunk or the index is
    /// past its blocks.
    pub fn get_block(&mut self, x: i32, y: i32, z: i32) -> (r: Option<&mut Block>)
        ensures
            ({
                let cx = div_toward_zero(x as int, 16);
                let cz = div_toward_zero(z as int, 16);
                let idx = spec_pos_to_index(x, y, z);
                match first_chunk(old(self).chunks(), cx, cz) {
                    None => r is None && final(self).chunks() == old(self).chunks(),
                    Some(ci) => if idx < old(self).chunks()[ci].blocks().len() {
                        &&& r matches Some(b)
                        &&& (*b).parts() == old(self).chunks()[ci].blocks()[idx]
                        &&& final(self).chunks().len() == old(self).chunks().len()
                        &&& forall|j: int|
                            0 <= j < old(self).chunks().len() && j != ci
                                ==> #[trigger] final(self).chunks()[j] == old(self).chunks()[j]
                        &&& final(self).chunks()[ci].coords() == old(self).chunks()[ci].coords()
                        &&& final(self).chunks()[ci].blocks() == old(self).chunks()[ci].blocks().update(
                            idx,
                            (*final(b)).parts(),
                        )
                    } else {
                        r is None && final(self).chunks() == old(self).chunks()
                    },
                }
            }),
    {
        let chunk_x = div_16(x);
        let chunk_z = div_16(z);
        let mut i: usize = 0;
        while i < self.chunks.len()
            invariant
                i <= self.chunks@.len(),
                self.chunks@ == old(self).chunks@,
                chunk_x == div_toward_zero(x as int, 16),
                chunk_z == div_toward_zero(z as int, 16),
                forall|j: int|
                    0 <= j < i ==> !(self.chunks@[j].coords().0 == chunk_x
                        && self.chunks@[j].coords().1 == chunk_z),
            decreases self.chunks@.len() - i,
        {
            if self.chunks[i].x == chunk_x && self.chunks[i].z == chunk_z {
                proof {
                    lemma_first_chunk_found(self.chunks@, i as int, chunk_x as int, chunk_z as int);
                }
                let idx = Self::pos_to_index(x, y, z);
                proof {
                    assert(self.chunks()[i as int].blocks().len() == self.chunks@[i as int].data@.len());
                }
                if idx < self.chunks[i].data.len() {
                    return Some(&mut self.chunks[i].data[idx]);
                }
                return None;
            }
            i += 1;
        }
        proof {
            lemma_first_chunk_absent(self.chunks@, chunk_x as int, chunk_z as int);
        }
        None
    }
}

/// Two values of at most 15 in one byte, the first in the high half.
pub fn make_nibble_byte(a: u8, b: u8) -> (r: Option<u8>)
    ensures
        (a > 15 || b > 15) ==> r is None,
        (a <= 15 && b <= 15) ==> r == Some((a * 16 + b) as u8),
{
    if a > 15 || b > 15 {
        return None;
    }
    let a0 = a;
    let b0 = b;
    let mut a = a;
    let mut b = b;
    a = a << 4u8;
    a = a & 0b11110000u8;
    b = b & 0b00001111u8;
    assert(((a0 << 4u8) & 0xF0u8) | (b0 & 0x0Fu8) == a0 * 16 + b0) by (bit_vector)
        requires
            a0 <= 15,
            b0 <= 15,
    ;
    Some(a | b)
}

/// Packs every value with the next one: one byte per neighbouring pair, so
/// one byte fewer than there are values. `None` when a value is above 15
/// (a single value is never packed).
pub fn compress_to_nibble(input: Vec<u8>) -> (r: Option<Vec<u8>>)
    requires
        input@.len() > 0,
    ensures
        (input@.len() == 1 || forall|i: int| 0 <= i < input@.len() ==> input@[i] <= 15) ==> (r matches Some(
            v,
        ) && v@ == Seq::new(
            (input@.len() - 1) as nat,
            |i: int| (input@[i] * 16 + input@[i + 1]) as u8,
        )),
        !(input@.len() == 1 || forall|i: int| 0 <= i < input@.len() ==> input@[i] <= 15)
            ==> r is None,
{
    let mut output: Vec<u8> = Vec::new();
    let mut i: usize = 0;
    while i < input.len() - 1
        invariant
            input@.len() > 0,
            i <= input@.len() - 1,
            i > 0 ==> forall|k: int| 0 <= k <= i ==> #[trigger] input@[k] <= 15,
            output@ == Seq::new(i as nat, |k: int| (input@[k] * 16 + input@[k + 1]) as u8),
        decreases input@.len() - 1 - i,
    {
        let b = match make_nibble_byte(input[i], input[i + 1]) {
            Some(b) => b,
            None => {
                return None;
            },
        };
        output.push(b);
        assert(output@ =~= Seq::new((i + 1) as nat, |k: int| (input@[k] * 16 + input@[k + 1]) as u8));
        i += 1;
    }
    Some(output)
}

} // verus!
