//! A single binary cell and the genome rule table that drives it.
//!
//! A genome is an immutable table of exactly 128 boolean entries, addressed
//! by a 7-bit key derived from a 7-cell neighborhood. The table can be
//! drawn at random, decoded from a 32-character hexadecimal string, and
//! re-encoded as hexadecimal or as a 128-character binary string.

use vstd::prelude::*;

verus! {

/// The binary state of one cell: `On` or `Off`.
#[derive(Debug, PartialEq, Eq, Clone, Copy, Structural)]
pub enum State {
    Off,
    On,
}

impl State {
    /// The canonical boolean projection: `On` is `true`, `Off` is `false`.
    pub open spec fn as_bool(self) -> bool {
        self == State::On
    }

    /// `true` becomes `On`, `false` becomes `Off`. Total, no failure mode.
    pub fn from_bool(b: bool) -> (r: State)
        ensures
            r.as_bool() == b,
    {
        if b {
            State::On
        } else {
            State::Off
        }
    }
}

/// One binary unit of the automaton's ring.
#[derive(Debug, PartialEq, Eq, Clone, Copy, Structural)]
pub struct Cell {
    pub state: State,
}

/// The boolean states of a sequence of cells, in order.
pub open spec fn cells_bits(cs: Seq<Cell>) -> Seq<bool> {
    cs.map_values(|c: Cell| c.state.as_bool())
}

/// An input-validation failure, detected eagerly when a genome is decoded
/// or a lookup is attempted, never during a generation advance.
#[derive(Debug, PartialEq, Eq, Clone, Copy, Structural)]
pub enum GenomeError {
    /// An encoded genome string does not have the required fixed length.
    InvalidLength,
    /// A character outside the expected alphabet appears in an encoded
    /// genome string.
    InvalidDigit,
    /// A rule lookup was attempted on a neighborhood whose length is not 7.
    InvalidNeighborhoodSize,
}

/// Whether `c` is a hexadecimal digit, case-insensitive.
pub open spec fn is_hex_digit(c: char) -> bool {
    (48 <= c as u32 && c as u32 <= 57)  // '0' ..= '9'
    || (65 <= c as u32 && c as u32 <= 70)  // 'A' ..= 'F'
    || (97 <= c as u32 && c as u32 <= 102)  // 'a' ..= 'f'
}

/// The numeric value of a hexadecimal digit, case-insensitive.
pub open spec fn hex_val(c: char) -> int
    recommends
        is_hex_digit(c),
{
    if 48 <= c as u32 && c as u32 <= 57 {
        c as u32 - 48
    } else if 65 <= c as u32 && c as u32 <= 70 {
        c as u32 - 55
    } else {
        c as u32 - 87
    }
}

/// Bit `j` of the value `v`, counted from the least significant end.
pub open spec fn nibble_bit(v: int, j: int) -> bool
    recommends
        0 <= v < 16,
        0 <= j < 4,
{
    if j == 0 {
        v % 2 == 1
    } else if j == 1 {
        (v / 2) % 2 == 1
    } else if j == 2 {
        (v / 4) % 2 == 1
    } else {
        (v / 8) % 2 == 1
    }
}

/// The rule table decoded from a 32-digit hexadecimal string: each digit
/// contributes exactly four entries, least-significant bit first.
pub open spec fn decode_hex(s: Seq<char>) -> Seq<bool>
    recommends
        s.len() == 32,
{
    Seq::new(128, |i: int| nibble_bit(hex_val(s[i / 4]), i % 4))
}

/// A boolean as the bit it stands for.
pub open spec fn bit_val(b: bool) -> int {
    if b {
        1
    } else {
        0
    }
}

/// The value of the `k`-th non-overlapping 4-entry group of the table,
/// folded most-significant bit first.
pub open spec fn nibble_of(t: Seq<bool>, k: int) -> int
    recommends
        0 <= k,
        4 * k + 3 < t.len(),
{
    8 * bit_val(t[4 * k]) + 4 * bit_val(t[4 * k + 1]) + 2 * bit_val(t[4 * k + 2]) + bit_val(
        t[4 * k + 3],
    )
}

/// The uppercase hexadecimal digit for a value below 16.
pub open spec fn hex_char(v: int) -> char
    recommends
        0 <= v < 16,
{
    if v == 0 {
        '0'
    } else if v == 1 {
        '1'
    } else if v == 2 {
        '2'
    } else if v == 3 {
        '3'
    } else if v == 4 {
        '4'
    } else if v == 5 {
        '5'
    } else if v == 6 {
        '6'
    } else if v == 7 {
        '7'
    } else if v == 8 {
        '8'
    } else if v == 9 {
        '9'
    } else if v == 10 {
        'A'
    } else if v == 11 {
        'B'
    } else if v == 12 {
        'C'
    } else if v == 13 {
        'D'
    } else if v == 14 {
        'E'
    } else {
        'F'
    }
}

/// The 32-digit uppercase hexadecimal encoding of a 128-entry table: each
/// non-overlapping 4-entry group is folded most-significant bit first.
pub open spec fn encode_hex(t: Seq<bool>) -> Seq<char>
    recommends
        t.len() == 128,
{
    Seq::new(32, |k: int| hex_char(nibble_of(t, k)))
}

/// The binary encoding of a table: one `'0'` or `'1'` per entry, in order.
pub open spec fn encode_binary(t: Seq<bool>) -> Seq<char> {
    t.map_values(|b: bool| if b { '1' } else { '0' })
}

/// The 7-bit lookup key of a neighborhood of 7 cell states: the leftmost
/// neighbor is the most significant bit, the rightmost the least.
pub open spec fn key_of(w: Seq<bool>) -> int
    recommends
        w.len() == 7,
{
    64 * bit_val(w[0]) + 32 * bit_val(w[1]) + 16 * bit_val(w[2]) + 8 * bit_val(w[3]) + 4 * bit_val(
        w[4],
    ) + 2 * bit_val(w[5]) + bit_val(w[6])
}

/// What a rule lookup returns: the table entry at the neighborhood's key,
/// or `InvalidNeighborhoodSize` when the window is not 7 cells wide.
pub open spec fn lookup_spec(table: Seq<bool>, w: Seq<bool>) -> Result<State, GenomeError>
    recommends
        table.len() == 128,
{
    if w.len() == 7 {
        Ok(if table[key_of(w)] {
            State::On
        } else {
            State::Off
        })
    } else {
        Err(GenomeError::InvalidNeighborhoodSize)
    }
}

/// The key of any 7-cell neighborhood addresses the 128-entry table.
pub proof fn lemma_key_in_table(w: Seq<bool>)
    requires
        w.len() == 7,
    ensures
        0 <= key_of(w) < 128,
{
}

/// Rule lookup is pure: equal tables and equal neighborhoods give equal
/// results, however often the lookup is repeated.
pub proof fn lemma_lookup_pure(table: Seq<bool>, w1: Seq<bool>, w2: Seq<bool>)
    requires
        w1 == w2,
    ensures
        lookup_spec(table, w1) == lookup_spec(table, w2),
{
}

/// Relies on `rand::random`: for `bool` the standard distribution is a
/// fair coin drawn from the thread-local generator. Nothing is promised
/// of the outcome.
#[verifier::external_body]
pub(crate) fn coin_flip() -> bool {
    rand::random::<bool>()
}

/// Relies on `String::push`: appends the given character to the end of
/// the string.
#[verifier::external_body]
fn push_char(s: &mut String, c: char)
    ensures
        final (s)@ == old(s)@.push(c),
{
    s.push(c);
}

/// An immutable rule table of exactly 128 boolean entries, addressed by
/// the 7-bit key of a neighborhood.
pub struct Genome {
    sequence: Vec<bool>,
}

impl Clone for Genome {
    /// A clone holds an equal rule table.
    fn clone(&self) -> (r: Genome)
        ensures
            r@ == self@,
    {
        let sequence = self.sequence.clone();
        proof {
            assert(sequence@ =~= self.sequence@);
        }
        Genome { sequence }
    }
}

impl View for Genome {
    type V = Seq<bool>;

    closed spec fn view(&self) -> Seq<bool> {
        self.sequence@
    }
}

impl Genome {
    /// A well-formed genome holds exactly 128 entries.
    pub open spec fn wf(&self) -> bool {
        self@.len() == 128
    }

    /// A genome whose 128 entries are independent fair coin draws.
    /// Always succeeds.
    pub fn new() -> (g: Genome)
        ensures
            g.wf(),
    {
        let mut sequence: Vec<bool> = Vec::new();
        while sequence.len() < 128
            invariant
                sequence@.len() <= 128,
            decreases 128 - sequence.len(),
        {
            sequence.push(coin_flip());
        }
        Genome { sequence }
    }

    /// Decodes a genome from a 32-character hexadecimal string,
    /// case-insensitive. Each digit contributes exactly four table
    /// entries, least-significant bit first; a digit whose high bits are
    /// zero still writes all four of its entries, so a decoded table
    /// always holds the full 128 entries.
    ///
    /// Note that this direction is deliberately not the mirror image of
    /// [`Genome::to_hex`], which folds each 4-entry group
    /// most-significant bit first: see [`lemma_hex_round_trip`].
    pub fn from_hex_str(s: &str) -> (r: Result<Genome, GenomeError>)
        ensures
            match r {
                Ok(g) => s@.len() == 32 && (forall|i: int| 0 <= i < 32 ==> is_hex_digit(s@[i]))
                    && g.wf() && g@ == decode_hex(s@),
                Err(GenomeError::InvalidLength) => s@.len() != 32,
                Err(GenomeError::InvalidDigit) => s@.len() == 32 && (exists|i: int|
                    0 <= i < 32 && !is_hex_digit(s@[i])),
                Err(GenomeError::InvalidNeighborhoodSize) => false,
            },
    {
        if s.unicode_len() != 32 {
            return Err(GenomeError::InvalidLength);
        }
        let mut sequence: Vec<bool> = Vec::new();
        let mut i: usize = 0;
        while i < 32
            invariant
                s@.len() == 32,
                i <= 32,
                sequence@.len() == 4 * i,
                forall|k: int| 0 <= k < i ==> is_hex_digit(s@[k]),
                forall|j: int|
                    0 <= j < 4 * i ==> sequence@[j] == nibble_bit(hex_val(s@[j / 4]), j % 4),
            decreases 32 - i,
        {
            let c = s.get_char(i);
            let u = c as u32;
            let v: u32 = if 48 <= u && u <= 57 {
                u - 48
            } else if 65 <= u && u <= 70 {
                u - 55
            } else if 97 <= u && u <= 102 {
                u - 87
            } else {
                return Err(GenomeError::InvalidDigit);
            };
            sequence.push(v % 2 == 1);
            sequence.push((v / 2) % 2 == 1);
            sequence.push((v / 4) % 2 == 1);
            sequence.push((v / 8) % 2 == 1);
            i = i + 1;
        }
        proof {
            assert(sequence@ =~= decode_hex(s@));
        }
        Ok(Genome { sequence })
    }

    /// Looks the neighborhood's key up in the rule table; the leftmost
    /// cell is the most significant bit of the key. Fails with
    /// `InvalidNeighborhoodSize` if and only if the window is not
    /// exactly 7 cells wide.
    pub fn foo(&self, neighborhood: &[Cell]) -> (r: Result<State, GenomeError>)
        requires
            self.wf(),
        ensures
            r == lookup_spec(self@, cells_bits(neighborhood@)),
    {
        if neighborhood.len() != 7 {
            return Err(GenomeError::InvalidNeighborhoodSize);
        }
        let mut key: usize = 0;
        if neighborhood[0].state == State::On {
            key = key + 64;
        }
        if neighborhood[1].state == State::On {
            key = key + 32;
        }
        if neighborhood[2].state == State::On {
            key = key + 16;
        }
        if neighborhood[3].state == State::On {
            key = key + 8;
        }
        if neighborhood[4].state == State::On {
            key = key + 4;
        }
        if neighborhood[5].state == State::On {
            key = key + 2;
        }
        if neighborhood[6].state == State::On {
            key = key + 1;
        }
        proof {
            assert(key as int == key_of(cells_bits(neighborhood@)));
        }
        Ok(State::from_bool(self.sequence[key]))
    }

    /// Encodes the table as 32 uppercase hexadecimal digits: each
    /// consecutive non-overlapping 4-entry group is folded
    /// most-significant bit first.
    ///
    /// This direction is deliberately not the mirror image of
    /// [`Genome::from_hex_str`]: see [`lemma_hex_round_trip`].
    pub fn to_hex(&self) -> (r: String)
        requires
            self.wf(),
        ensures
            r@ == encode_hex(self@),
    {
        let mut r = String::new();
        let mut k: usize = 0;
        while k < 32
            invariant
                self.wf(),
                k <= 32,
                r@.len() == k,
                forall|j: int| 0 <= j < k ==> r@[j] == hex_char(nibble_of(self@, j)),
            decreases 32 - k,
        {
            let mut v: u8 = 0;
            if self.sequence[4 * k] {
                v = v + 8;
            }
            if self.sequence[4 * k + 1] {
                v = v + 4;
            }
            if self.sequence[4 * k + 2] {
                v = v + 2;
            }
            if self.sequence[4 * k + 3] {
                v = v + 1;
            }
            let c = hex_char_of(v);
            push_char(&mut r, c);
            k = k + 1;
        }
        proof {
            assert(r@ =~= encode_hex(self@));
        }
        r
    }

    /// Encodes the table as 128 characters, one `'0'` or `'1'` per entry,
    /// in table order.
    pub fn to_binary(&self) -> (r: String)
        requires
            self.wf(),
        ensures
            r@ == encode_binary(self@),
    {
        let mut r = String::new();
        let mut i: usize = 0;
        while i < 128
            invariant
                self.wf(),
                i <= 128,
                r@.len() == i,
                forall|j: int| 0 <= j < i ==> r@[j] == (if self@[j] { '1' } else { '0' }),
            decreases 128 - i,
        {
            let c = if self.sequence[i] {
                '1'
            } else {
                '0'
            };
            push_char(&mut r, c);
            i = i + 1;
        }
        proof {
            assert(r@ =~= encode_binary(self@));
        }
        r
    }
}

/// The uppercase hexadecimal digit of a value below 16.
fn hex_char_of(v: u8) -> (c: char)
    requires
        v < 16,
    ensures
        c == hex_char(v as int),
{
    match v {
        0 => '0',
        1 => '1',
        2 => '2',
        3 => '3',
        4 => '4',
        5 => '5',
        6 => '6',
        7 => '7',
        8 => '8',
        9 => '9',
        10 => 'A',
        11 => 'B',
        12 => 'C',
        13 => 'D',
        14 => 'E',
        _ => 'F',
    }
}

/// Encoding then decoding a digit's 4-entry group returns the group
/// reversed: the two directions read the bits in opposite orders.
proof fn lemma_nibble_round_trip(b0: bool, b1: bool, b2: bool, b3: bool)
    ensures
        nibble_bit(8 * bit_val(b0) + 4 * bit_val(b1) + 2 * bit_val(b2) + bit_val(b3), 0) == b3,
        nibble_bit(8 * bit_val(b0) + 4 * bit_val(b1) + 2 * bit_val(b2) + bit_val(b3), 1) == b2,
        nibble_bit(8 * bit_val(b0) + 4 * bit_val(b1) + 2 * bit_val(b2) + bit_val(b3), 2) == b1,
        nibble_bit(8 * bit_val(b0) + 4 * bit_val(b1) + 2 * bit_val(b2) + bit_val(b3), 3) == b0,
{
}

/// Reading an uppercase hexadecimal digit back gives its value.
proof fn lemma_hex_char_val(v: int)
    requires
        0 <= v < 16,
    ensures
        is_hex_digit(hex_char(v)),
        hex_val(hex_char(v)) == v,
{
}

/// The hex codec is asymmetric on purpose: decoding reads each digit
/// least-significant bit first while encoding folds each 4-entry group
/// most-significant bit first. A round trip through both therefore does
/// not return the table unchanged in general: it reverses every
/// consecutive 4-entry group.
pub proof fn lemma_hex_round_trip(t: Seq<bool>)
    requires
        t.len() == 128,
    ensures
        decode_hex(encode_hex(t)).len() == 128,
        forall|i: int|
            0 <= i < 128 ==> decode_hex(encode_hex(t))[i] == t[4 * (i / 4) + (3 - i % 4)],
{
    assert forall|i: int|
        0 <= i < 128 implies decode_hex(encode_hex(t))[i] == t[4 * (i / 4) + (3 - i % 4)] by {
        let k = i / 4;
        let j = i % 4;
        lemma_hex_char_val(nibble_of(t, k));
        lemma_nibble_round_trip(t[4 * k], t[4 * k + 1], t[4 * k + 2], t[4 * k + 3]);
    }
}

} // verus!
