//! Numbers and addresses from text: offsets written in hexadecimal, and the
//! base address of a library in a listing of the mappings of a process.
//!
//! Text is taken as its UTF-8 bytes. A listing has one mapping to a line,
//! each line starting with the first address of the mapping in hexadecimal
//! and a hyphen.

use vstd::prelude::*;
use vstd::string::StringSliceAdditionalSpecFns;

verus! {

/// An address, or an offset from one.
pub type Dword = usize;

/// The value of a hexadecimal digit, in either case.
pub open spec fn digit_value(b: u8) -> Option<nat> {
    if 0x30 <= b <= 0x39 {
        Some((b - 0x30) as nat)
    } else if 0x61 <= b <= 0x66 {
        Some((b - 0x61 + 10) as nat)
    } else if 0x41 <= b <= 0x46 {
        Some((b - 0x41 + 10) as nat)
    } else {
        None
    }
}

/// The number that `digits` spell in hexadecimal, most significant digit
/// first; none where a byte is no digit. No digits spell 0.
pub open spec fn hex_number(digits: Seq<u8>) -> Option<nat>
    decreases digits.len(),
{
    if digits.len() == 0 {
        Some(0)
    } else {
        match (hex_number(digits.drop_last()), digit_value(digits.last())) {
            (Some(high), Some(low)) => Some(16 * high + low),
            _ => None,
        }
    }
}

/// The number that `text` spells: an optional plus sign, then at least one
/// hexadecimal digit and nothing else, with a value that a `usize` holds.
pub open spec fn spec_parse_hex(text: Seq<u8>) -> Option<usize> {
    let digits = if text.len() > 0 && text[0] == 0x2b {
        text.skip(1)
    } else {
        text
    };
    if digits.len() == 0 {
        None
    } else {
        match hex_number(digits) {
            Some(value) => if value <= usize::MAX {
                Some(value as usize)
            } else {
                None
            },
            None => None,
        }
    }
}

/// `text` without the pairs `first`, `second` that it starts with, however
/// many there are.
pub open spec fn strip_pairs(text: Seq<u8>, first: u8, second: u8) -> Seq<u8>
    decreases text.len(),
{
    if text.len() >= 2 && text[0] == first && text[1] == second {
        strip_pairs(text.skip(2), first, second)
    } else {
        text
    }
}

/// The offset that `text` spells: every leading `0x` is dropped, then every
/// leading `0X`, and the rest is read as a hexadecimal number.
pub open spec fn spec_string_to_offset(text: Seq<u8>) -> Option<usize> {
    spec_parse_hex(strip_pairs(strip_pairs(text, 0x30, 0x78), 0x30, 0x58))
}

/// The numbers spelled by the digits before a longer spelling are no
/// greater: a number that has left the range of `usize` does not come back.
proof fn lemma_hex_number_grows(digits: Seq<u8>, shorter: int)
    requires
        0 <= shorter <= digits.len(),
        hex_number(digits) is Some,
    ensures
        hex_number(digits.take(shorter)) is Some,
        hex_number(digits.take(shorter))->Some_0 <= hex_number(digits)->Some_0,
    decreases digits.len(),
{
    if shorter == digits.len() {
        assert(digits.take(shorter) =~= digits);
    } else {
        assert(digits.drop_last().take(shorter) =~= digits.take(shorter));
        lemma_hex_number_grows(digits.drop_last(), shorter);
    }
}

/// Where the digits before a spelling spell no number, neither does the
/// spelling.
proof fn lemma_hex_number_prefix(digits: Seq<u8>, shorter: int)
    requires
        0 <= shorter <= digits.len(),
        hex_number(digits.take(shorter)) is None,
    ensures
        hex_number(digits) is None,
    decreases digits.len(),
{
    if shorter == digits.len() {
        assert(digits.take(shorter) =~= digits);
    } else {
        assert(digits.drop_last().take(shorter) =~= digits.take(shorter));
        lemma_hex_number_prefix(digits.drop_last(), shorter);
    }
}

/// The value of the hexadecimal digit `b`, if it is one.
fn digit(b: u8) -> (value: Option<usize>)
    ensures
        value is Some <==> digit_value(b) is Some,
        value matches Some(v) ==> v == digit_value(b)->Some_0 && v < 16,
{
    if 0x30 <= b && b <= 0x39 {
        Some((b - 0x30) as usize)
    } else if 0x61 <= b && b <= 0x66 {
        Some((b - 0x61 + 10) as usize)
    } else if 0x41 <= b && b <= 0x46 {
        Some((b - 0x41 + 10) as usize)
    } else {
        None
    }
}

/// Reads `text[from..to]` as a hexadecimal number with an optional plus
/// sign.
pub fn parse_hex(text: &[u8], from: usize, to: usize) -> (r: Option<usize>)
    requires
        from <= to <= text@.len(),
    ensures
        r == spec_parse_hex(text@.subrange(from as int, to as int)),
{
    let ghost all = text@.subrange(from as int, to as int);
    let start = if from < to && text[from] == 0x2b {
        from + 1
    } else {
        from
    };
    let ghost digits = text@.subrange(start as int, to as int);
    assert(digits =~= if all.len() > 0 && all[0] == 0x2b {
        all.skip(1)
    } else {
        all
    });
    if start == to {
        return None;
    }
    let mut value: usize = 0;
    let mut i = start;
    assert(digits.take(0) =~= Seq::<u8>::empty());
    while i < to
        invariant
            start <= i <= to <= text@.len(),
            start < to,
            all == text@.subrange(from as int, to as int),
            digits == text@.subrange(start as int, to as int),
            digits == (if all.len() > 0 && all[0] == 0x2b {
                all.skip(1)
            } else {
                all
            }),
            hex_number(digits.take(i - start)) == Some(value as nat),
        decreases to - i,
    {
        let ghost seen = digits.take(i - start);
        let ghost next = digits.take(i + 1 - start);
        assert(next.drop_last() =~= seen);
        assert(next.last() == text@[i as int]);
        match digit(text[i]) {
            None => {
                proof {
                    lemma_hex_number_prefix(digits, i + 1 - start);
                }
                return None;
            },
            Some(d) => {
                if value > (usize::MAX - d) / 16 {
                    proof {
                        assert(hex_number(next) == Some(16 * (value as nat) + d as nat));
                        if hex_number(digits) is Some {
                            lemma_hex_number_grows(digits, i + 1 - start);
                        }
                    }
                    return None;
                }
                value = 16 * value + d;
            },
        }
        i += 1;
    }
    assert(digits.take(to - start) =~= digits);
    Some(value)
}

/// The index of the first byte of `text[from..]` that is not part of a
/// leading run of the pair `first`, `second`.
fn skip_pairs(text: &[u8], from: usize, first: u8, second: u8) -> (at: usize)
    requires
        from <= text@.len(),
    ensures
        from <= at <= text@.len(),
        text@.skip(at as int) == strip_pairs(text@.skip(from as int), first, second),
{
    let n = text.len();
    let mut at = from;
    while n - at >= 2 && text[at] == first && text[at + 1] == second
        invariant
            from <= at <= n,
            n == text@.len(),
            strip_pairs(text@.skip(at as int), first, second) == strip_pairs(
                text@.skip(from as int),
                first,
                second,
            ),
        decreases n - at,
    {
        assert(text@.skip(at as int).skip(2) =~= text@.skip(at + 2));
        at += 2;
    }
    at
}

/// Reads an offset written in hexadecimal, with or without `0x` in front.
pub fn string_to_offset(hex_string: &str) -> (r: Option<usize>)
    ensures
        r == spec_string_to_offset(hex_string.spec_bytes()),
{
    let text = hex_string.as_bytes();
    let lower = skip_pairs(text, 0, 0x30, 0x78);
    assert(text@.skip(0) =~= text@);
    let upper = skip_pairs(text, lower, 0x30, 0x58);
    assert(text@.skip(upper as int) =~= text@.subrange(upper as int, text@.len() as int));
    parse_hex(text, upper, text.len())
}

/// The index of the first `byte` in `text[from..to]`, or `to` where there
/// is none.
pub open spec fn first_byte(text: Seq<u8>, from: int, to: int, byte: u8) -> int
    decreases to - from,
{
    if from >= to {
        to
    } else if text[from] == byte {
        from
    } else {
        first_byte(text, from + 1, to, byte)
    }
}

/// Whether `name` stands at index `at` of `text`.
pub open spec fn stands_at(text: Seq<u8>, at: int, name: Seq<u8>) -> bool {
    forall|j: int| 0 <= j < name.len() ==> text[at + j] == #[trigger] name[j]
}

/// Whether `name` occurs in `text[from..to]`.
pub open spec fn occurs_in(text: Seq<u8>, from: int, to: int, name: Seq<u8>) -> bool {
    exists|at: int| from <= at && at + name.len() <= to && #[trigger] stands_at(text, at, name)
}

/// The index behind the line that starts at `from` and ends before the line
/// feed at `feed`, or before the end of the text where `feed` is that: a
/// carriage return right before a line feed does not belong to the line.
pub open spec fn line_end(text: Seq<u8>, from: int, feed: int) -> int {
    if feed < text.len() && from < feed && text[feed - 1] == 0x0d {
        feed - 1
    } else {
        feed
    }
}

/// The base address of the first mapping in the listing `text[from..]`
/// whose line holds `name`: the text of that line up to its first hyphen,
/// read as a hexadecimal number. There is none where no line holds `name`
/// or where that text is no number.
pub open spec fn spec_find_library(text: Seq<u8>, from: int, name: Seq<u8>) -> Option<usize>
    decreases text.len() - from,
{
    if from >= text.len() || from < 0 {
        None
    } else {
        let feed = first_byte(text, from, text.len() as int, 0x0a);
        let end = line_end(text, from, feed);
        if occurs_in(text, from, end, name) {
            spec_parse_hex(text.subrange(from, first_byte(text, from, end, 0x2d)))
        } else if from <= feed < text.len() {
            spec_find_library(text, feed + 1, name)
        } else {
            None
        }
    }
}

/// Whether a line of the listing `text[from..]` holds `name`.
pub open spec fn spec_is_library_loaded(text: Seq<u8>, from: int, name: Seq<u8>) -> bool
    decreases text.len() - from,
{
    if from >= text.len() || from < 0 {
        false
    } else {
        let feed = first_byte(text, from, text.len() as int, 0x0a);
        let end = line_end(text, from, feed);
        if occurs_in(text, from, end, name) {
            true
        } else if from <= feed < text.len() {
            spec_is_library_loaded(text, feed + 1, name)
        } else {
            false
        }
    }
}

/// Finds the first `byte` in `text[from..to]`.
fn find_byte(text: &[u8], from: usize, to: usize, byte: u8) -> (at: usize)
    requires
        from <= to <= text@.len(),
    ensures
        at == first_byte(text@, from as int, to as int, byte),
        from <= at <= to,
{
    let mut at = from;
    while at < to && text[at] != byte
        invariant
            from <= at <= to <= text@.len(),
            first_byte(text@, at as int, to as int, byte) == first_byte(text@, from as int, to as int, byte),
        decreases to - at,
    {
        at += 1;
    }
    at
}

/// Whether `name` stands at index `at` of `text`.
fn matches_at(text: &[u8], at: usize, name: &[u8]) -> (found: bool)
    requires
        at + name@.len() <= text@.len(),
    ensures
        found == stands_at(text@, at as int, name@),
{
    let n = name.len();
    let total = text.len();
    let mut j: usize = 0;
    while j < n
        invariant
            j <= n,
            n == name@.len(),
            at + n <= total,
            total == text@.len(),
            forall|k: int| 0 <= k < j ==> text@[at + k] == #[trigger] name@[k],
        decreases n - j,
    {
        if text[at + j] != name[j] {
            return false;
        }
        j += 1;
    }
    true
}

/// Whether `name` occurs in `text[from..to]`.
fn contains(text: &[u8], from: usize, to: usize, name: &[u8]) -> (found: bool)
    requires
        from <= to <= text@.len(),
    ensures
        found == occurs_in(text@, from as int, to as int, name@),
{
    let n = name.len();
    if n > to - from {
        return false;
    }
    let last = to - n;
    let mut at = from;
    while at <= last
        invariant
            from <= at <= last + 1,
            last + n == to,
            to <= text@.len(),
            n == name@.len(),
            forall|k: int| from <= k < at ==> !#[trigger] stands_at(text@, k, name@),
        decreases last + 1 - at,
    {
        if matches_at(text, at, name) {
            return true;
        }
        at += 1;
    }
    false
}

/// The base address of the library `library_name` in `maps`, the listing of
/// the mappings of a process: the address at the start of the first line
/// that holds the name.
pub fn find_library(maps: &str, library_name: &str) -> (r: Option<Dword>)
    ensures
        r == spec_find_library(maps.spec_bytes(), 0, library_name.spec_bytes()),
{
    let text = maps.as_bytes();
    let name = library_name.as_bytes();
    let n = text.len();
    let mut from: usize = 0;
    while from < n
        invariant
            from <= n,
            n == text@.len(),
            text@ == maps.spec_bytes(),
            name@ == library_name.spec_bytes(),
            spec_find_library(text@, from as int, name@) == spec_find_library(text@, 0, name@),
        decreases n - from,
    {
        let feed = find_byte(text, from, n, 0x0a);
        let end = if feed < n && from < feed && text[feed - 1] == 0x0d {
            feed - 1
        } else {
            feed
        };
        if contains(text, from, end, name) {
            let hyphen = find_byte(text, from, end, 0x2d);
            return parse_hex(text, from, hyphen);
        }
        if feed >= n {
            return None;
        }
        from = feed + 1;
    }
    None
}

/// Whether `maps`, the listing of the mappings of a process, has a line that
/// holds `library_name`.
pub fn is_library_loaded(maps: &str, library_name: &str) -> (loaded: bool)
    ensures
        loaded == spec_is_library_loaded(maps.spec_bytes(), 0, library_name.spec_bytes()),
{
    let text = maps.as_bytes();
    let name = library_name.as_bytes();
    let n = text.len();
    let mut from: usize = 0;
    while from < n
        invariant
            from <= n,
            n == text@.len(),
            text@ == maps.spec_bytes(),
            name@ == library_name.spec_bytes(),
            spec_is_library_loaded(text@, from as int, name@) == spec_is_library_loaded(text@, 0, name@),
        decreases n - from,
    {
        let feed = find_byte(text, from, n, 0x0a);
        let end = if feed < n && from < feed && text[feed - 1] == 0x0d {
            feed - 1
        } else {
            feed
        };
        if contains(text, from, end, name) {
            return true;
        }
        if feed >= n {
            return false;
        }
        from = feed + 1;
    }
    false
}

/// The address at `relative_addr` bytes from the base of the library
/// `library_name` in the listing `maps`, where the library is listed and
/// the address exists.
pub fn get_absolute_address(maps: &str, library_name: &str, relative_addr: Dword) -> (r: Option<Dword>)
    ensures
        r == (match spec_find_library(maps.spec_bytes(), 0, library_name.spec_bytes()) {
            Some(base) => if base + relative_addr <= usize::MAX {
                Some((base + relative_addr) as usize)
            } else {
                None
            },
            None => None,
        }),
{
    match find_library(maps, library_name) {
        Some(base) => base.checked_add(relative_addr),
        None => None,
    }
}

/// The time between two looks at the listing, in milliseconds.
pub const POLL_INTERVAL_MS: u64 = 100;

/// Whether a line of the listing `maps` holds `name`.
pub open spec fn lists_library(maps: String, name: Seq<u8>) -> bool {
    spec_is_library_loaded(vstd::utf8::encode_utf8(maps@), 0, name)
}

/// Whether `listings` are what `read_maps` gave, one look after the other,
/// in a wait for `name`: each is a listing that `read_maps` may give, and
/// none but the last holds `name`, since the wait ends with the first that
/// does.
pub open spec fn is_wait<R: Fn() -> String>(read_maps: &R, name: Seq<u8>, listings: Seq<String>) -> bool {
    forall|i: int|
        0 <= i < listings.len() ==> read_maps.ensures((), #[trigger] listings[i]) && (i < listings.len() - 1
            ==> !lists_library(listings[i], name))
}

/// Whether `found` is what a wait for `name` of at most `looks` looks comes
/// to, given the listings that it saw: the library is found where the last
/// listing holds its name; it is not found where every look that the timeout
/// allows was taken and no listing held the name. `sleep` was called with
/// the interval after each look that did not find the library.
pub open spec fn wait_result<S: Fn(u64) -> ()>(
    sleep: &S,
    name: Seq<u8>,
    looks: int,
    listings: Seq<String>,
    found: bool,
) -> bool {
    let misses = if found {
        listings.len() - 1
    } else {
        listings.len() as int
    };
    &&& listings.len() <= looks
    &&& found ==> listings.len() > 0 && lists_library(listings.last(), name)
    &&& !found ==> listings.len() == looks && (listings.len() > 0 ==> !lists_library(listings.last(), name))
    &&& misses > 0 ==> sleep.ensures((POLL_INTERVAL_MS,), ())
}

/// Looks at the listing of the mappings of the process, once every
/// `POLL_INTERVAL_MS` milliseconds, until a line holds `library_name` or
/// `timeout_ms` milliseconds are used up. `read_maps` gives the listing as
/// it is at the time of the call, and `sleep` waits for the milliseconds it
/// is handed. The result says whether the library was seen: it is seen with
/// the first listing that holds its name, and it is not seen where none of
/// the `timeout_ms / POLL_INTERVAL_MS` listings that the timeout allows
/// holds it, which is at once where the timeout is shorter than one
/// interval.
pub fn wait_for_library<R: Fn() -> String, S: Fn(u64) -> ()>(
    library_name: &str,
    timeout_ms: u64,
    read_maps: &R,
    sleep: &S,
) -> (found: bool)
    requires
        read_maps.requires(()),
        sleep.requires((POLL_INTERVAL_MS,)),
    ensures
        exists|listings: Seq<String>|
            #[trigger] is_wait(read_maps, library_name.spec_bytes(), listings) && wait_result(
                sleep,
                library_name.spec_bytes(),
                timeout_ms as int / POLL_INTERVAL_MS as int,
                listings,
                found,
            ),
        timeout_ms < POLL_INTERVAL_MS ==> !found,
{
    let max_iterations = timeout_ms / POLL_INTERVAL_MS;
    let mut iteration: u64 = 0;
    let ghost name = library_name.spec_bytes();
    let ghost mut listings: Seq<String> = Seq::empty();
    while iteration < max_iterations
        invariant
            read_maps.requires(()),
            sleep.requires((POLL_INTERVAL_MS,)),
            max_iterations == timeout_ms / POLL_INTERVAL_MS,
            name == library_name.spec_bytes(),
            iteration <= max_iterations,
            listings.len() == iteration,
            forall|i: int|
                0 <= i < listings.len() ==> read_maps.ensures((), #[trigger] listings[i]) && !lists_library(
                    listings[i],
                    name,
                ),
            iteration > 0 ==> sleep.ensures((POLL_INTERVAL_MS,), ()),
        decreases max_iterations - iteration,
    {
        let maps = read_maps();
        let loaded = is_library_loaded(maps.as_str(), library_name);
        proof {
            listings = listings.push(maps);
        }
        if loaded {
            proof {
                assert(is_wait(read_maps, name, listings));
                assert(wait_result(sleep, name, max_iterations as int, listings, true));
            }
            return true;
        }
        sleep(POLL_INTERVAL_MS);
        iteration += 1;
    }
    proof {
        assert(is_wait(read_maps, name, listings));
        assert(wait_result(sleep, name, max_iterations as int, listings, false));
    }
    false
}

} // verus!
