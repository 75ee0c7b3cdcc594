//! Diagnostics: a switch that says whether they are wanted, and the layout
//! of a hex dump.

use vstd::prelude::*;

verus! {

/// The switch for diagnostics. It is off until it is turned on.
#[derive(Debug, Clone, Copy, PartialEq, Eq, Structural)]
pub struct Debug {
    enabled: bool,
}

impl Debug {
    /// Whether diagnostics are wanted.
    pub closed spec fn spec_is_enabled(&self) -> bool {
        self.enabled
    }

    /// A switch that is off.
    pub fn new() -> (debug: Self)
        ensures
            !debug.spec_is_enabled(),
    {
        Debug { enabled: false }
    }

    /// Turns diagnostics on.
    pub fn enable(&mut self)
        ensures
            final(self).spec_is_enabled(),
    {
        self.enabled = true;
    }

    /// Turns diagnostics off.
    pub fn disable(&mut self)
        ensures
            !final(self).spec_is_enabled(),
    {
        self.enabled = false;
    }

    /// Whether diagnostics are wanted.
    pub fn is_enabled(&self) -> (enabled: bool)
        ensures
            enabled == self.spec_is_enabled(),
    {
        self.enabled
    }
}

impl Default for Debug {
    fn default() -> (debug: Self)
        ensures
            !debug.spec_is_enabled(),
    {
        Self::new()
    }
}

/// The number of bytes that one line of a hex dump shows.
pub const BYTES_PER_LINE: usize = 16;

/// The character for a digit below 16, in lower case.
pub open spec fn digit_char(digit: nat) -> u8 {
    if digit < 10 {
        (0x30 + digit) as u8
    } else {
        (0x61 + digit - 10) as u8
    }
}

/// The hexadecimal digits of `n`, least significant first, filled up with
/// zeros to `width` digits where there are fewer.
pub open spec fn digits_reversed(n: nat, width: nat) -> Seq<u8>
    decreases n + width,
{
    if n < 16 && width <= 1 {
        seq![digit_char(n)]
    } else {
        seq![digit_char(n % 16)] + digits_reversed(n / 16, if width > 0 { (width - 1) as nat } else { 0 })
    }
}

/// The character that stands for `byte` in the text column of a hex dump:
/// the byte itself from the space up to 0x7f, and a dot otherwise.
pub open spec fn shown(byte: u8) -> u8 {
    if 0x20 <= byte < 0x80 {
        byte
    } else {
        0x2e
    }
}

/// The two hexadecimal digits of each byte of `chunk`, each pair followed by
/// a space.
pub open spec fn hex_column(chunk: Seq<u8>) -> Seq<u8>
    decreases chunk.len(),
{
    if chunk.len() == 0 {
        Seq::empty()
    } else {
        hex_column(chunk.drop_last()) + seq![
            digit_char(chunk.last() as nat / 16),
            digit_char(chunk.last() as nat % 16),
            0x20u8,
        ]
    }
}

/// One line of a hex dump, for the at most 16 bytes `chunk` that stand at
/// `offset`: the offset in at least four hexadecimal digits, a colon and a
/// space; the bytes in hexadecimal, with three spaces in place of each byte
/// that is missing at the end; a space; and the bytes as text between two
/// bars.
pub open spec fn spec_hex_line(offset: usize, chunk: Seq<u8>) -> Seq<u8> {
    digits_reversed(offset as nat, 4).reverse() + seq![0x3au8, 0x20u8] + hex_column(chunk) + Seq::new(
        (3 * (BYTES_PER_LINE - chunk.len())) as nat,
        |i: int| 0x20u8,
    ) + seq![0x20u8, 0x7cu8] + chunk.map_values(|byte: u8| shown(byte)) + seq![0x7cu8]
}

/// The character for a digit below 16.
fn digit_to_char(digit: usize) -> (c: u8)
    requires
        digit < 16,
    ensures
        c == digit_char(digit as nat),
{
    if digit < 10 {
        0x30 + digit as u8
    } else {
        0x61 + (digit as u8 - 10)
    }
}

/// Appends the hexadecimal digits of `n`, in at least four digits, to
/// `line`.
fn push_offset(line: &mut Vec<u8>, n: usize)
    ensures
        final(line)@ == old(line)@ + digits_reversed(n as nat, 4).reverse(),
{
    let mut reversed: Vec<u8> = Vec::new();
    let mut rest = n;
    let mut width: usize = 4;
    loop
        invariant_except_break
            width <= 4,
            reversed@ + digits_reversed(rest as nat, width as nat) == digits_reversed(n as nat, 4),
        ensures
            reversed@ == digits_reversed(n as nat, 4),
        decreases rest + width,
    {
        let ghost before = reversed@;
        reversed.push(digit_to_char(rest % 16));
        if rest < 16 && width <= 1 {
            assert(digits_reversed(rest as nat, width as nat) =~= seq![digit_char(rest as nat)]);
            break ;
        }
        proof {
            let next_width = if width > 0 {
                (width - 1) as nat
            } else {
                0
            };
            assert(before + (seq![digit_char(rest as nat % 16)] + digits_reversed(rest as nat / 16, next_width))
                =~= before.push(digit_char(rest as nat % 16)) + digits_reversed(rest as nat / 16, next_width));
        }
        rest = rest / 16;
        if width > 0 {
            width -= 1;
        }
    }
    let n_digits = reversed.len();
    let mut i: usize = 0;
    while i < n_digits
        invariant
            i <= n_digits,
            n_digits == reversed@.len(),
            line@ == old(line)@ + reversed@.reverse().take(i as int),
        decreases n_digits - i,
    {
        line.push(reversed[n_digits - 1 - i]);
        i += 1;
        assert(line@ =~= old(line)@ + reversed@.reverse().take(i as int));
    }
    assert(reversed@.reverse().take(n_digits as int) =~= reversed@.reverse());
}

impl Debug {
    /// One line of a hex dump, for the bytes `chunk` that stand at `offset`.
    pub fn hex_line(offset: usize, chunk: &[u8]) -> (line: Vec<u8>)
        requires
            chunk@.len() <= BYTES_PER_LINE,
        ensures
            line@ == spec_hex_line(offset, chunk@),
    {
        let n = chunk.len();
        let mut line: Vec<u8> = Vec::new();
        push_offset(&mut line, offset);
        line.push(0x3a);
        line.push(0x20);
        let ghost head = digits_reversed(offset as nat, 4).reverse() + seq![0x3au8, 0x20u8];
        assert(line@ =~= head);
        let mut i: usize = 0;
        assert(chunk@.take(0) =~= Seq::<u8>::empty());
        while i < n
            invariant
                i <= n,
                n == chunk@.len(),
                line@ == head + hex_column(chunk@.take(i as int)),
            decreases n - i,
        {
            let byte = chunk[i];
            line.push(digit_to_char((byte / 16) as usize));
            line.push(digit_to_char((byte % 16) as usize));
            line.push(0x20);
            proof {
                let next = chunk@.take(i + 1);
                assert(next.drop_last() =~= chunk@.take(i as int));
                assert(next.last() == byte);
                assert(line@ =~= head + hex_column(next));
            }
            i += 1;
        }
        assert(chunk@.take(n as int) =~= chunk@);
        let ghost hex = head + hex_column(chunk@);
        let padding = 3 * (BYTES_PER_LINE - n);
        let mut i: usize = 0;
        while i < padding
            invariant
                i <= padding,
                line@ == hex + Seq::new(i as nat, |k: int| 0x20u8),
            decreases padding - i,
        {
            line.push(0x20);
            i += 1;
            assert(line@ =~= hex + Seq::new(i as nat, |k: int| 0x20u8));
        }
        line.push(0x20);
        line.push(0x7c);
        let ghost left = hex + Seq::new(padding as nat, |k: int| 0x20u8) + seq![0x20u8, 0x7cu8];
        assert(line@ =~= left);
        let mut i: usize = 0;
        while i < n
            invariant
                i <= n,
                n == chunk@.len(),
                line@ == left + chunk@.take(i as int).map_values(|byte: u8| shown(byte)),
            decreases n - i,
        {
            let byte = chunk[i];
            let c = if byte >= 0x20 && byte < 0x80 {
                byte
            } else {
                0x2e
            };
            line.push(c);
            i += 1;
            assert(line@ =~= left + chunk@.take(i as int).map_values(|byte: u8| shown(byte)));
        }
        assert(chunk@.take(n as int) =~= chunk@);
        line.push(0x7c);
        assert(line@ =~= spec_hex_line(offset, chunk@));
        line
    }

    /// The lines of a hex dump of `data`, 16 bytes to a line.
    pub fn hex_dump(data: &[u8]) -> (lines: Vec<Vec<u8>>)
        ensures
            lines@.len() == (data@.len() + BYTES_PER_LINE - 1) / BYTES_PER_LINE as int,
            forall|i: int|
                0 <= i < lines@.len() ==> (#[trigger] lines@[i])@ == spec_hex_line(
                    (BYTES_PER_LINE * i) as usize,
                    data@.subrange(
                        BYTES_PER_LINE * i,
                        if BYTES_PER_LINE * (i + 1) <= data@.len() {
                            BYTES_PER_LINE * (i + 1)
                        } else {
                            data@.len() as int
                        },
                    ),
                ),
    {
        let n = data.len();
        let count = n / BYTES_PER_LINE + (if n % BYTES_PER_LINE != 0 {
            1
        } else {
            0
        });
        let mut lines: Vec<Vec<u8>> = Vec::new();
        let mut i: usize = 0;
        while i < count
            invariant
                i <= count,
                n == data@.len(),
                count == (n + BYTES_PER_LINE - 1) / BYTES_PER_LINE as int,
                lines@.len() == i,
                forall|k: int|
                    0 <= k < lines@.len() ==> (#[trigger] lines@[k])@ == spec_hex_line(
                        (BYTES_PER_LINE * k) as usize,
                        data@.subrange(
                            BYTES_PER_LINE * k,
                            if BYTES_PER_LINE * (k + 1) <= data@.len() {
                                BYTES_PER_LINE * (k + 1)
                            } else {
                                data@.len() as int
                            },
                        ),
                    ),
            decreases count - i,
        {
            let offset = BYTES_PER_LINE * i;
            let end = if n - offset >= BYTES_PER_LINE {
                offset + BYTES_PER_LINE
            } else {
                n
            };
            let chunk = vstd::slice::slice_subrange(data, offset, end);
            let line = Self::hex_line(offset, chunk);
            lines.push(line);
            i += 1;
        }
        lines
    }
}

} // verus!
