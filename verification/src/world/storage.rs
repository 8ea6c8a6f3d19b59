//! Persistence of a chunk: the key under which a store holds it, and the
//! bytes of its block grid, one byte for each cell.

use crate::world::block::{Block, BlockType};
use crate::world::chunk::{grid_cell, in_chunk, Chunk, Grid, CHUNK_VOLUME};
use crate::world::coords::GridPoint;
use crate::world::terrain::{generated_cell, HeightMap};
use vstd::prelude::*;

verus! {

/// The byte that separates the coordinates in a key: an underscore.
pub const KEY_SEPARATOR: u8 = 95;

/// The byte of the minus sign.
pub const KEY_MINUS: u8 = 45;

/// The byte of the digit zero.
pub const KEY_ZERO: u8 = 48;

/// The decimal digits of a number that is not negative, most significant
/// first, as ASCII bytes.
pub open spec fn decimal_digits(n: nat) -> Seq<u8>
    decreases n,
{
    if n < 10 {
        seq![(KEY_ZERO + n) as u8]
    } else {
        decimal_digits(n / 10).push((KEY_ZERO + n % 10) as u8)
    }
}

/// A number in decimal, with a minus sign in front if it is negative.
pub open spec fn decimal(n: int) -> Seq<u8> {
    if n < 0 {
        seq![KEY_MINUS] + decimal_digits((-n) as nat)
    } else {
        decimal_digits(n as nat)
    }
}

/// The key of the chunk at `position`: its three coordinates in decimal,
/// separated by underscores.
pub open spec fn key_bytes(position: GridPoint) -> Seq<u8> {
    decimal(position.x as int) + seq![KEY_SEPARATOR] + decimal(position.y as int) + seq![
        KEY_SEPARATOR,
    ] + decimal(position.z as int)
}

/// The byte that stands for a cell: zero for an empty cell, else the code
/// of the block's kind.
pub open spec fn cell_code(cell: Option<Block>) -> u8 {
    match cell {
        None => 0,
        Some(block) => block.block_type.spec_code(),
    }
}

/// The cell that a byte stands for. Zero is the empty cell; a byte that is
/// no kind's code stands for nothing and is not accepted.
pub open spec fn code_cell(code: u8) -> Option<Block> {
    match BlockType::spec_from_code(code) {
        None => None,
        Some(kind) => Some(Block { block_type: kind }),
    }
}

/// Whether a byte stands for a cell.
pub open spec fn code_valid(code: u8) -> bool {
    code <= 6
}

/// The bytes of a grid: the code of each cell, in the grid's order.
pub open spec fn encoded(grid: Grid) -> Seq<u8> {
    Seq::new(grid.len(), |i: int| cell_code(grid[i]))
}

/// Whether bytes are the record of a chunk: one valid code for each cell.
pub open spec fn decodable(bytes: Seq<u8>) -> bool {
    &&& bytes.len() == CHUNK_VOLUME
    &&& forall|i: int| 0 <= i < bytes.len() ==> code_valid(#[trigger] bytes[i])
}

/// The grid that bytes stand for.
pub open spec fn decoded(bytes: Seq<u8>) -> Grid {
    Seq::new(bytes.len(), |i: int| code_cell(bytes[i]))
}

/// Why bytes are not the record of a chunk.
#[derive(Clone, Copy, Debug, PartialEq, Eq, Structural)]
pub enum DecodeError {
    /// There is not one byte for each cell.
    WrongLength { found: usize },
    /// The byte at `index` is no cell's code.
    UnknownBlock { index: usize, code: u8 },
}

/// What a store is to hold for a chunk.
pub struct Record {
    pub key: Vec<u8>,
    pub value: Vec<u8>,
}

/// A saved chunk loads back cell for cell: the bytes of any grid of a
/// chunk's size are a record, and stand for that grid.
pub proof fn decode_inverts_encode(grid: Grid)
    requires
        grid.len() == CHUNK_VOLUME,
    ensures
        decodable(encoded(grid)),
        decoded(encoded(grid)) == grid,
{
    assert forall|i: int| 0 <= i < grid.len() implies code_cell(cell_code(grid[i])) == grid[i]
        && code_valid(cell_code(grid[i])) by {
        match grid[i] {
            None => {},
            Some(block) => {
                block.block_type.code_round_trip();
            },
        }
    }
    assert(decoded(encoded(grid)) =~= grid);
}

/// A record is the encoding of the grid it stands for, and of no other:
/// two chunks with the same record hold the same cells.
pub proof fn encode_inverts_decode(bytes: Seq<u8>)
    requires
        decodable(bytes),
    ensures
        encoded(decoded(bytes)) == bytes,
{
    assert forall|i: int| 0 <= i < bytes.len() implies cell_code(code_cell(bytes[i]))
        == bytes[i] by {
        assert(code_valid(bytes[i]));
    }
    assert(encoded(decoded(bytes)) =~= bytes);
}

/// The number that decimal digits stand for.
pub open spec fn digits_value(digits: Seq<u8>) -> int
    decreases digits.len(),
{
    if digits.len() == 0 {
        0
    } else {
        digits_value(digits.drop_last()) * 10 + (digits.last() - KEY_ZERO)
    }
}

/// Decimal digits are digits, there is at least one, and they stand for the
/// number they were made of.
pub proof fn decimal_digits_stand_for_their_number(n: nat)
    ensures
        decimal_digits(n).len() >= 1,
        forall|i: int|
            0 <= i < decimal_digits(n).len() ==> KEY_ZERO <= #[trigger] decimal_digits(n)[i]
                <= KEY_ZERO + 9,
        digits_value(decimal_digits(n)) == n,
    decreases n,
{
    if n >= 10 {
        decimal_digits_stand_for_their_number(n / 10);
        let front = decimal_digits(n / 10);
        let all = decimal_digits(n);
        assert(all.drop_last() =~= front);
    } else {
        let all = decimal_digits(n);
        assert(all.drop_last() =~= Seq::<u8>::empty());
        assert(digits_value(all.drop_last()) == 0);
    }
}

/// A number in decimal holds no separator, and no other number is written
/// the same way.
pub proof fn decimal_names_one_number(n: int, m: int)
    ensures
        decimal(n).len() >= 1,
        forall|i: int| 0 <= i < decimal(n).len() ==> #[trigger] decimal(n)[i] != KEY_SEPARATOR,
        decimal(n) == decimal(m) ==> n == m,
{
    let size_n = if n < 0 {
        (-n) as nat
    } else {
        n as nat
    };
    let size_m = if m < 0 {
        (-m) as nat
    } else {
        m as nat
    };
    decimal_digits_stand_for_their_number(size_n);
    decimal_digits_stand_for_their_number(size_m);
    if decimal(n) == decimal(m) {
        assert(decimal(n)[0] == decimal(m)[0]);
        if n < 0 {
            assert(decimal(n)[0] == KEY_MINUS);
            assert(m < 0);
            assert(decimal(n).subrange(1, decimal(n).len() as int) =~= decimal_digits(size_n));
            assert(decimal(m).subrange(1, decimal(m).len() as int) =~= decimal_digits(size_m));
        } else {
            assert(decimal(n)[0] == decimal_digits(size_n)[0]);
            assert(m >= 0);
        }
    }
}

/// Where two texts without a separator are each followed by a separator
/// and a rest, and the whole is the same, the texts are the same and the
/// rests are the same.
proof fn separator_splits_one_way(a: Seq<u8>, rest_a: Seq<u8>, b: Seq<u8>, rest_b: Seq<u8>)
    requires
        forall|i: int| 0 <= i < a.len() ==> #[trigger] a[i] != KEY_SEPARATOR,
        forall|i: int| 0 <= i < b.len() ==> #[trigger] b[i] != KEY_SEPARATOR,
        a + seq![KEY_SEPARATOR] + rest_a == b + seq![KEY_SEPARATOR] + rest_b,
    ensures
        a == b,
        rest_a == rest_b,
{
    let left = a + seq![KEY_SEPARATOR] + rest_a;
    let right = b + seq![KEY_SEPARATOR] + rest_b;
    assert(left[a.len() as int] == KEY_SEPARATOR);
    assert(right[b.len() as int] == KEY_SEPARATOR);
    if a.len() < b.len() {
        assert(right[a.len() as int] == b[a.len() as int]);
    } else if b.len() < a.len() {
        assert(left[b.len() as int] == a[b.len() as int]);
    }
    assert(a.len() == b.len());
    assert(left.len() == right.len());
    assert(a =~= b) by {
        assert forall|i: int| 0 <= i < a.len() implies a[i] == b[i] by {
            assert(left[i] == a[i]);
            assert(right[i] == b[i]);
        }
    }
    assert(rest_a =~= rest_b) by {
        assert forall|i: int| 0 <= i < rest_a.len() implies rest_a[i] == rest_b[i] by {
            assert(left[a.len() + 1 + i] == rest_a[i]);
            assert(right[b.len() + 1 + i] == rest_b[i]);
        }
    }
}

/// No two chunks share a key.
pub proof fn keys_are_distinct(a: GridPoint, b: GridPoint)
    ensures
        key_bytes(a) == key_bytes(b) <==> a == b,
{
    if key_bytes(a) == key_bytes(b) {
        let (ax, ay, az) = (decimal(a.x as int), decimal(a.y as int), decimal(a.z as int));
        let (bx, by, bz) = (decimal(b.x as int), decimal(b.y as int), decimal(b.z as int));
        decimal_names_one_number(a.x as int, b.x as int);
        decimal_names_one_number(a.y as int, b.y as int);
        decimal_names_one_number(a.z as int, b.z as int);
        decimal_names_one_number(b.x as int, a.x as int);
        decimal_names_one_number(b.y as int, a.y as int);
        let rest_a = ay + seq![KEY_SEPARATOR] + az;
        let rest_b = by + seq![KEY_SEPARATOR] + bz;
        assert(key_bytes(a) =~= ax + seq![KEY_SEPARATOR] + rest_a);
        assert(key_bytes(b) =~= bx + seq![KEY_SEPARATOR] + rest_b);
        separator_splits_one_way(ax, rest_a, bx, rest_b);
        separator_splits_one_way(ay, az, by, bz);
    }
}

fn push_digits(out: &mut Vec<u8>, n: u64)
    ensures
        final(out)@ == old(out)@ + decimal_digits(n as nat),
    decreases n,
{
    if n >= 10 {
        push_digits(out, n / 10);
    }
    let digit: u8 = (n % 10) as u8;
    out.push(KEY_ZERO + digit);
    assert(out@ =~= old(out)@ + decimal_digits(n as nat));
}

fn push_decimal(out: &mut Vec<u8>, n: i64)
    ensures
        final(out)@ == old(out)@ + decimal(n as int),
{
    if n < 0 {
        out.push(KEY_MINUS);
        let magnitude: u64 = (-(n as i128)) as u64;
        push_digits(out, magnitude);
        assert(out@ =~= old(out)@ + decimal(n as int));
    } else {
        push_digits(out, n as u64);
    }
}

/// The key under which a store holds the chunk at `position`.
pub fn chunk_key(position: GridPoint) -> (key: Vec<u8>)
    ensures
        key@ == key_bytes(position),
{
    let mut key: Vec<u8> = Vec::new();
    push_decimal(&mut key, position.x);
    key.push(KEY_SEPARATOR);
    push_decimal(&mut key, position.y);
    key.push(KEY_SEPARATOR);
    push_decimal(&mut key, position.z);
    assert(key@ =~= key_bytes(position));
    key
}

fn code_of(cell: Option<Block>) -> (code: u8)
    ensures
        code == cell_code(cell),
{
    match cell {
        None => 0,
        Some(block) => block.block_type.code(),
    }
}

fn cell_of(code: u8) -> (cell: Option<Block>)
    ensures
        cell == code_cell(code),
{
    match BlockType::from_code(code) {
        None => None,
        Some(kind) => Some(Block { block_type: kind }),
    }
}

impl Chunk {
    /// The bytes of the block grid, one for each cell.
    pub fn encode(&self) -> (bytes: Vec<u8>)
        ensures
            bytes@ == encoded(self@),
    {
        let mut bytes: Vec<u8> = Vec::new();
        let mut i: usize = 0;
        while i < self.blocks.len()
            invariant
                i <= self@.len(),
                bytes@.len() == i,
                forall|j: int| 0 <= j < i ==> #[trigger] bytes@[j] == cell_code(self@[j]),
            decreases self@.len() - i,
        {
            bytes.push(code_of(self.blocks[i]));
            i = i + 1;
        }
        assert(bytes@ =~= encoded(self@));
        bytes
    }

    /// The block grid that `bytes` stand for. Fails if there is not one
    /// byte for each cell, and else at the first byte that is no cell's
    /// code.
    pub fn decode(bytes: &Vec<u8>) -> (grid: Result<Vec<Option<Block>>, DecodeError>)
        ensures
            grid is Ok <==> decodable(bytes@),
            grid matches Ok(cells) ==> cells@ == decoded(bytes@),
            grid matches Err(DecodeError::WrongLength { found }) ==> found == bytes@.len() && found
                != CHUNK_VOLUME,
            grid matches Err(DecodeError::UnknownBlock { index, code }) ==> bytes@.len()
                == CHUNK_VOLUME && index < bytes@.len() && code == bytes@[index as int]
                && !code_valid(code) && forall|j: int|
                0 <= j < index ==> code_valid(#[trigger] bytes@[j]),
    {
        if bytes.len() != CHUNK_VOLUME {
            return Err(DecodeError::WrongLength { found: bytes.len() });
        }
        let mut cells: Vec<Option<Block>> = Vec::new();
        let mut i: usize = 0;
        while i < bytes.len()
            invariant
                i <= bytes@.len(),
                bytes@.len() == CHUNK_VOLUME,
                cells@.len() == i,
                forall|j: int| 0 <= j < i ==> code_valid(#[trigger] bytes@[j]),
                forall|j: int| 0 <= j < i ==> #[trigger] cells@[j] == code_cell(bytes@[j]),
            decreases bytes@.len() - i,
        {
            let code = bytes[i];
            if code > 6 {
                return Err(DecodeError::UnknownBlock { index: i, code });
            }
            cells.push(cell_of(code));
            i = i + 1;
        }
        assert(cells@ =~= decoded(bytes@));
        Ok(cells)
    }

    /// What a store is to hold for this chunk at `position`: the key of the
    /// position and the bytes of the block grid.
    pub fn save(&self, position: GridPoint) -> (record: Record)
        ensures
            record.key@ == key_bytes(position),
            record.value@ == encoded(self@),
    {
        Record { key: chunk_key(position), value: self.encode() }
    }

    /// Installs the chunk at `position` from what the store holds under its
    /// key. With a record, the block grid becomes the one it stands for and
    /// `false` comes back; a record that cannot be decoded is an error and
    /// leaves the chunk as it was. With none, the chunk is generated from
    /// the height fields and `true` comes back.
    pub fn load(
        &mut self,
        position: GridPoint,
        record: Option<Vec<u8>>,
        terrain: &HeightMap,
        stone: &HeightMap,
    ) -> (generated: Result<bool, DecodeError>)
        requires
            old(self).wf(),
            terrain.wf(),
            stone.wf(),
        ensures
            final(self).wf(),
            generated is Ok <==> (record matches Some(bytes) ==> decodable(bytes@)),
            generated is Err ==> *final(self) == *old(self),
            generated matches Err(error) ==> Chunk::decode_outcome(record.unwrap()@, error),
            generated matches Ok(fresh) ==> fresh == (record is None),
            record matches Some(bytes) ==> generated is Ok ==> final(self)@ == decoded(bytes@)
                && !final(self).full && final(self).geometry is None,
            record is None ==> final(self).full == old(self).full && final(self).geometry == old(
                self,
            ).geometry && forall|x: int, y: int, z: int|
                in_chunk(x, y, z) ==> #[trigger] grid_cell(final(self)@, x, y, z) == generated_cell(
                    grid_cell(old(self)@, x, y, z),
                    position.y as int,
                    terrain.value(x, z) as int,
                    stone.value(x, z) as int,
                    y,
                ),
    {
        match record {
            Some(bytes) => {
                match Self::decode(&bytes) {
                    Ok(cells) => {
                        *self = Chunk { blocks: cells, geometry: None, full: false };
                        Ok(false)
                    },
                    Err(error) => Err(error),
                }
            },
            None => {
                self.generate(position.y, terrain, stone);
                Ok(true)
            },
        }
    }

    /// What an error of `decode` says of the bytes it was given.
    pub open spec fn decode_outcome(bytes: Seq<u8>, error: DecodeError) -> bool {
        match error {
            DecodeError::WrongLength { found } => found == bytes.len() && found != CHUNK_VOLUME,
            DecodeError::UnknownBlock { index, code } => {
                &&& bytes.len() == CHUNK_VOLUME
                &&& index < bytes.len()
                &&& code == bytes[index as int]
                &&& !code_valid(code)
                &&& forall|j: int| 0 <= j < index ==> code_valid(#[trigger] bytes[j])
            },
        }
    }
}

} // verus!
