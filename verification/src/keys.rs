//! From the bytes of the terminal to the keys that plugins are told of.
//!
//! The bytes are read as keys by `termion`, and each key is written as JSON
//! by `serde_json`. Neither is proved here; what is proved is that `termion`
//! is only handed bytes on which it is known to return: a control sequence
//! with numbers that it cannot read, or one that the bytes break off in,
//! makes it fail. Bytes that hold such a sequence are read part by part,
//! and the part with the sequence is left out.

use crate::numbers::is_digit;
use vstd::prelude::*;

verus! {

/// `termion::event::Key`, a key as the terminal reports it.
#[verifier::external_type_specification]
#[verifier::external_body]
pub struct ExKey(termion::event::Key);

/// The keys that `termion` reads from the given bytes, in order.
pub uninterp spec fn keys_in(bytes: Seq<u8>) -> Seq<termion::event::Key>;

/// The JSON text that `serde_json` writes for a key.
pub uninterp spec fn key_json(key: termion::event::Key) -> Seq<char>;

/// Where the first byte from `@` to `~` stands that is at `at` or after it;
/// the length of the bytes where there is none. That byte ends a numbered
/// control sequence.
pub open spec fn final_byte_at(bytes: Seq<u8>, at: int) -> int
    decreases bytes.len() - at,
{
    if at < 0 || at >= bytes.len() {
        bytes.len() as int
    } else if 64 <= bytes[at] <= 126 {
        at
    } else {
        final_byte_at(bytes, at + 1)
    }
}

/// Where the first `m` or `M` stands that is at `at` or after it; the
/// length of the bytes where there is none. That byte ends a report of the
/// mouse in numbers.
pub open spec fn report_end_at(bytes: Seq<u8>, at: int) -> int
    decreases bytes.len() - at,
{
    if at < 0 || at >= bytes.len() {
        bytes.len() as int
    } else if bytes[at] == 0x4d || bytes[at] == 0x6d {
        at
    } else {
        report_end_at(bytes, at + 1)
    }
}

/// Whether the bytes from `at` up to `end` are numbers with one `;`
/// between two of them, each of one digit or more and none above `limit`.
/// `value` is what the digits of the number at hand stand for so far, and
/// `digits` says whether it has a digit yet.
pub open spec fn numbers_parse(
    bytes: Seq<u8>,
    at: int,
    end: int,
    limit: int,
    value: int,
    digits: bool,
) -> bool
    decreases end - at,
{
    if at >= end || at < 0 || at >= bytes.len() {
        digits
    } else if is_digit(bytes[at]) {
        value * 10 + (bytes[at] - 0x30) <= limit && numbers_parse(
            bytes,
            at + 1,
            end,
            limit,
            value * 10 + (bytes[at] - 0x30),
            true,
        )
    } else if bytes[at] == 0x3b {
        digits && numbers_parse(bytes, at + 1, end, limit, 0, false)
    } else {
        false
    }
}

/// How many `;` stand from `at` up to `end`.
pub open spec fn separators(bytes: Seq<u8>, at: int, end: int) -> int
    decreases end - at,
{
    if at >= end || at < 0 || at >= bytes.len() {
        0
    } else if bytes[at] == 0x3b {
        1 + separators(bytes, at + 1, end)
    } else {
        separators(bytes, at + 1, end)
    }
}

/// Whether `byte` ends a numbered control sequence whose numbers `termion`
/// reads as numbers up to 255: `~`, or one of `A`, `B`, `C`, `D`, `F`, `H`.
pub open spec fn ends_key_numbers(byte: u8) -> bool {
    byte == 0x7e || byte == 0x41 || byte == 0x42 || byte == 0x43 || byte == 0x44 || byte == 0x46
        || byte == 0x48
}

/// Whether the numbered control sequence whose first digit stands at `at`
/// is one that `termion` reads without fault: a byte from `@` to `~` ends
/// it; where that byte is `~` or one of `A`, `B`, `C`, `D`, `F`, `H`, the
/// bytes before it are numbers up to 255; where it is `M`, which makes the
/// sequence a report of the mouse, they are three numbers or more up to
/// 65535. Before any other byte `termion` reads no numbers.
pub open spec fn numbers_are_readable(bytes: Seq<u8>, at: int) -> bool {
    let end = final_byte_at(bytes, at);
    &&& end < bytes.len()
    &&& ends_key_numbers(bytes[end]) ==> numbers_parse(bytes, at, end, 255, 0, false)
    &&& bytes[end] == 0x4d ==> numbers_parse(bytes, at, end, 65535, 0, false) && separators(
        bytes,
        at,
        end,
    ) >= 2
}

/// Whether the three bytes of a report of the mouse stand at `at`, the
/// first of them none from 128 to 159, which `termion` cannot take.
pub open spec fn report_is_whole(bytes: Seq<u8>, at: int) -> bool {
    0 <= at && at + 2 < bytes.len() && !(128 <= bytes[at] <= 159)
}

/// Whether the bytes from `at` up to `end` are what a report of the mouse
/// in numbers holds: three numbers up to 65535 with one `;` between two of
/// them, and then nothing, or a `;` and bytes below 128. `groups` counts
/// the numbers before the one at hand, and is three once the three have
/// been read.
pub open spec fn report_parses(
    bytes: Seq<u8>,
    at: int,
    end: int,
    groups: int,
    value: int,
    digits: bool,
) -> bool
    decreases end - at,
{
    if at >= end || at < 0 || at >= bytes.len() {
        groups >= 3 || (groups == 2 && digits)
    } else if groups >= 3 {
        bytes[at] < 128 && report_parses(bytes, at + 1, end, 3, 0, false)
    } else if is_digit(bytes[at]) {
        value * 10 + (bytes[at] - 0x30) <= 65535 && report_parses(
            bytes,
            at + 1,
            end,
            groups,
            value * 10 + (bytes[at] - 0x30),
            true,
        )
    } else if bytes[at] == 0x3b {
        digits && report_parses(bytes, at + 1, end, groups + 1, 0, false)
    } else {
        false
    }
}

/// Whether the report of the mouse in numbers that starts at `at` is one
/// that `termion` reads without fault: an `m` or `M` ends it, and the bytes
/// before that are what such a report holds.
pub open spec fn report_is_readable(bytes: Seq<u8>, at: int) -> bool {
    let end = report_end_at(bytes, at);
    end < bytes.len() && report_parses(bytes, at, end, 0, 0, false)
}

/// Whether the control sequence that starts at `at`, if one starts there, is
/// one that `termion` reads without fault: after `ESC [`, an `M` is
/// followed by a whole report of the mouse, a `<` by a report in numbers
/// that can be read, and a digit starts numbers that can be read.
pub open spec fn sequence_is_readable(bytes: Seq<u8>, at: int) -> bool {
    at + 2 < bytes.len() && bytes[at] == 0x1b && bytes[at + 1] == 0x5b ==> {
        &&& bytes[at + 2] == 0x4d ==> report_is_whole(bytes, at + 3)
        &&& bytes[at + 2] == 0x3c ==> report_is_readable(bytes, at + 3)
        &&& is_digit(bytes[at + 2]) ==> numbers_are_readable(bytes, at + 2)
    }
}

/// Whether `termion` reads the bytes as keys without fault.
pub open spec fn keys_are_readable(bytes: Seq<u8>) -> bool {
    forall|at: int| 0 <= at < bytes.len() ==> #[trigger] sequence_is_readable(bytes, at)
}

/// The texts, each as the sequence of its characters.
pub open spec fn views_of(texts: Seq<String>) -> Seq<Seq<char>> {
    Seq::new(texts.len(), |i: int| texts[i]@)
}

/// The keys, each as the JSON that `serde_json` writes for it.
pub open spec fn json_of(keys: Seq<termion::event::Key>) -> Seq<Seq<char>> {
    Seq::new(keys.len(), |i: int| key_json(keys[i]))
}

/// Where the first `ESC` stands that is at `at` or after it; the length of
/// the bytes where there is none.
pub open spec fn next_escape(bytes: Seq<u8>, at: int) -> int
    decreases bytes.len() - at,
{
    if at < 0 || at >= bytes.len() {
        bytes.len() as int
    } else if bytes[at] == 0x1b {
        at
    } else {
        next_escape(bytes, at + 1)
    }
}

/// What is told of one part of the bytes: the keys that `termion` reads
/// from it, if it can read the part, else nothing.
pub open spec fn told_of_part(part: Seq<u8>) -> Seq<Seq<char>> {
    if keys_are_readable(part) {
        json_of(keys_in(part))
    } else {
        Seq::empty()
    }
}

/// What is told of the bytes from `from` on, part by part: a part goes up
/// to the next `ESC` after its first byte.
pub open spec fn told_by_parts(bytes: Seq<u8>, from: int) -> Seq<Seq<char>>
    decreases bytes.len() - from,
{
    let end = next_escape(bytes, from + 1);
    if from < 0 || from >= bytes.len() || end <= from || end > bytes.len() {
        Seq::empty()
    } else {
        told_of_part(bytes.subrange(from, end)) + told_by_parts(bytes, end)
    }
}

/// The keys in the bytes as plugins are told them, each as JSON: the keys
/// that `termion` reads from the bytes, where it can read them as a whole;
/// else the keys of every part that it can read, a part being what stands
/// from one `ESC` up to the next, or before the first.
pub open spec fn told(bytes: Seq<u8>) -> Seq<Seq<char>> {
    if keys_are_readable(bytes) {
        json_of(keys_in(bytes))
    } else {
        told_by_parts(bytes, 0)
    }
}

/// Whether `texts` are the keys in `bytes` as plugins are told them.
pub open spec fn tells_keys(bytes: Seq<u8>, texts: Seq<String>) -> bool {
    views_of(texts) == told(bytes)
}

/// `termion::input::TermRead::keys` on a slice of bytes, without the items
/// that are no keys. The call is made only on bytes on which the parser of
/// `termion` does not run out of input in the middle of a numbered sequence
/// or of a report of the mouse, and meets no number that it cannot read.
#[verifier::external_body]
fn read_keys(bytes: &Vec<u8>) -> (keys: Vec<termion::event::Key>)
    requires
        keys_are_readable(bytes@),
    ensures
        keys@ == keys_in(bytes@),
{
    termion::input::TermRead::keys(bytes.as_slice()).filter_map(|key| key.ok()).collect()
}

/// `serde_json::to_string` on a key: the JSON text. The call fails only
/// where the value refuses to be written or holds a map whose keys are no
/// strings; a key as `termion` derives its writing does neither, so there
/// is always a text.
#[verifier::external_body]
fn write_key(key: &termion::event::Key) -> (text: Option<String>)
    ensures
        text is Some,
        text matches Some(t) ==> t@ == key_json(*key),
{
    serde_json::to_string(key).ok()
}

/// Finds the first byte from `@` to `~` at `at` or after it.
fn find_final_byte(bytes: &Vec<u8>, at: usize) -> (r: usize)
    ensures
        r == final_byte_at(bytes@, at as int),
        at <= r || r == bytes.len(),
        r <= bytes.len(),
{
    let mut i: usize = at;
    while i < bytes.len()
        invariant
            at <= i,
            final_byte_at(bytes@, i as int) == final_byte_at(bytes@, at as int),
        decreases bytes.len() - i,
    {
        if 64 <= bytes[i] && bytes[i] <= 126 {
            return i;
        }
        i += 1;
    }
    bytes.len()
}

/// Finds the first `m` or `M` at `at` or after it.
fn find_report_end(bytes: &Vec<u8>, at: usize) -> (r: usize)
    ensures
        r == report_end_at(bytes@, at as int),
        at <= r || r == bytes.len(),
        r <= bytes.len(),
{
    let mut i: usize = at;
    while i < bytes.len()
        invariant
            at <= i,
            report_end_at(bytes@, i as int) == report_end_at(bytes@, at as int),
        decreases bytes.len() - i,
    {
        if bytes[i] == 0x4d || bytes[i] == 0x6d {
            return i;
        }
        i += 1;
    }
    bytes.len()
}

/// Whether the bytes from `at` up to `end` are numbers up to `limit`.
fn check_numbers(bytes: &Vec<u8>, at: usize, end: usize, limit: u32) -> (r: bool)
    requires
        at <= end <= bytes.len(),
        limit <= 65535,
    ensures
        r == numbers_parse(bytes@, at as int, end as int, limit as int, 0, false),
{
    let mut i: usize = at;
    let mut value: u32 = 0;
    let mut digits = false;
    while i < end
        invariant
            at <= i <= end <= bytes.len(),
            value <= limit <= 65535,
            numbers_parse(bytes@, i as int, end as int, limit as int, value as int, digits)
                == numbers_parse(bytes@, at as int, end as int, limit as int, 0, false),
        decreases end - i,
    {
        let byte = bytes[i];
        if 0x30 <= byte && byte <= 0x39 {
            let next: u32 = value * 10 + (byte - 0x30) as u32;
            if next > limit {
                return false;
            }
            value = next;
            digits = true;
        } else if byte == 0x3b {
            if !digits {
                return false;
            }
            value = 0;
            digits = false;
        } else {
            return false;
        }
        i += 1;
    }
    digits
}

/// Counts the `;` from `at` up to `end`, as far as two.
fn has_two_separators(bytes: &Vec<u8>, at: usize, end: usize) -> (r: bool)
    requires
        at <= end <= bytes.len(),
    ensures
        r == (separators(bytes@, at as int, end as int) >= 2),
{
    let mut i: usize = at;
    let mut seen: u8 = 0;
    while i < end
        invariant
            at <= i <= end <= bytes.len(),
            seen < 2,
            seen + separators(bytes@, i as int, end as int) == separators(
                bytes@,
                at as int,
                end as int,
            ),
        decreases end - i,
    {
        if bytes[i] == 0x3b {
            proof {
                lemma_separators(bytes@, i as int + 1, end as int);
            }
            if seen == 1 {
                return true;
            }
            seen += 1;
        }
        i += 1;
    }
    false
}

/// Whether the numbered control sequence whose first digit stands at `at`
/// can be read.
fn check_numbered(bytes: &Vec<u8>, at: usize) -> (r: bool)
    ensures
        r == numbers_are_readable(bytes@, at as int),
{
    let end = find_final_byte(bytes, at);
    if end >= bytes.len() {
        return false;
    }
    let last = bytes[end];
    if last == 0x7e || last == 0x41 || last == 0x42 || last == 0x43 || last == 0x44 || last == 0x46
        || last == 0x48 {
        check_numbers(bytes, at, end, 255)
    } else if last == 0x4d {
        check_numbers(bytes, at, end, 65535) && has_two_separators(bytes, at, end)
    } else {
        true
    }
}

/// Whether the report of the mouse in numbers that starts at `at` can be
/// read.
fn check_report(bytes: &Vec<u8>, at: usize) -> (r: bool)
    ensures
        r == report_is_readable(bytes@, at as int),
{
    let end = find_report_end(bytes, at);
    if end >= bytes.len() {
        return false;
    }
    let mut i: usize = at;
    let mut groups: u8 = 0;
    let mut value: u32 = 0;
    let mut digits = false;
    while i < end
        invariant
            at <= i <= end < bytes.len(),
            end == report_end_at(bytes@, at as int),
            groups <= 3,
            value <= 65535,
            groups == 3 ==> value == 0 && !digits,
            report_parses(
                bytes@,
                i as int,
                end as int,
                groups as int,
                value as int,
                digits,
            ) == report_parses(bytes@, at as int, end as int, 0, 0, false),
        decreases end - i,
    {
        let byte = bytes[i];
        if groups >= 3 {
            if byte >= 128 {
                return false;
            }
        } else if 0x30 <= byte && byte <= 0x39 {
            let next: u32 = value * 10 + (byte - 0x30) as u32;
            if next > 65535 {
                return false;
            }
            value = next;
            digits = true;
        } else if byte == 0x3b {
            if !digits {
                return false;
            }
            groups += 1;
            value = 0;
            digits = false;
        } else {
            return false;
        }
        i += 1;
    }
    groups >= 3 || (groups == 2 && digits)
}

/// There are no fewer `;` than none.
proof fn lemma_separators(bytes: Seq<u8>, at: int, end: int)
    ensures
        separators(bytes, at, end) >= 0,
    decreases end - at,
{
    if !(at >= end || at < 0 || at >= bytes.len()) {
        lemma_separators(bytes, at + 1, end);
    }
}

/// Whether `termion` reads the bytes as keys without fault.
pub fn keys_can_be_read(bytes: &Vec<u8>) -> (r: bool)
    ensures
        r == keys_are_readable(bytes@),
{
    let mut at: usize = 0;
    while at < bytes.len()
        invariant
            0 <= at <= bytes.len(),
            forall|k: int| 0 <= k < at ==> #[trigger] sequence_is_readable(bytes@, k),
        decreases bytes.len() - at,
    {
        if bytes.len() - at > 2 && bytes[at] == 0x1b && bytes[at + 1] == 0x5b {
            let third = bytes[at + 2];
            let readable = if third == 0x4d {
                bytes.len() - at > 5 && !(128 <= bytes[at + 3] && bytes[at + 3] <= 159)
            } else if third == 0x3c {
                check_report(bytes, at + 3)
            } else if 0x30 <= third && third <= 0x39 {
                check_numbered(bytes, at + 2)
            } else {
                true
            };
            if !readable {
                assert(!sequence_is_readable(bytes@, at as int));
                return false;
            }
        }
        at += 1;
    }
    true
}

/// Finds the first `ESC` at `at` or after it.
fn find_escape(bytes: &Vec<u8>, at: usize) -> (r: usize)
    ensures
        r == next_escape(bytes@, at as int),
        at <= r || r == bytes.len(),
        r <= bytes.len(),
{
    let mut i: usize = at;
    while i < bytes.len()
        invariant
            at <= i,
            next_escape(bytes@, i as int) == next_escape(bytes@, at as int),
        decreases bytes.len() - i,
    {
        if bytes[i] == 0x1b {
            return i;
        }
        i += 1;
    }
    bytes.len()
}

/// Appends the JSON of the keys that `termion` reads from the bytes.
fn tell_keys(bytes: &Vec<u8>, texts: &mut Vec<String>)
    requires
        keys_are_readable(bytes@),
    ensures
        views_of(final(texts)@) == views_of(old(texts)@) + json_of(keys_in(bytes@)),
{
    let keys = read_keys(bytes);
    let mut i: usize = 0;
    assert(views_of(texts@) =~= views_of(old(texts)@) + json_of(keys@.take(0)));
    while i < keys.len()
        invariant
            0 <= i <= keys.len(),
            views_of(texts@) == views_of(old(texts)@) + json_of(keys@.take(i as int)),
        decreases keys.len() - i,
    {
        let ghost before = texts@;
        match write_key(&keys[i]) {
            Some(text) => {
                texts.push(text);
                assert(views_of(texts@) =~= views_of(before).push(text@));
            },
            None => {},
        }
        i += 1;
        assert(json_of(keys@.take(i as int)) =~= json_of(keys@.take(i as int - 1)).push(
            key_json(keys@[i as int - 1]),
        ));
        assert(views_of(texts@) =~= views_of(old(texts)@) + json_of(keys@.take(i as int)));
    }
    assert(keys@.take(keys.len() as int) =~= keys@);
}

/// The bytes from `from` up to `end`.
fn copy_part(bytes: &Vec<u8>, from: usize, end: usize) -> (part: Vec<u8>)
    requires
        from <= end <= bytes.len(),
    ensures
        part@ == bytes@.subrange(from as int, end as int),
{
    let mut part: Vec<u8> = Vec::new();
    let mut i: usize = from;
    while i < end
        invariant
            from <= i <= end <= bytes.len(),
            part@ == bytes@.subrange(from as int, i as int),
        decreases end - i,
    {
        part.push(bytes[i]);
        i += 1;
        assert(part@ =~= bytes@.subrange(from as int, i as int));
    }
    part
}

/// The keys in `bytes`, each as the JSON text that a plugin is told it by,
/// in order: the keys of the bytes as a whole where `termion` can read
/// them so, else the keys of the parts that it can read.
pub fn key_messages(bytes: &Vec<u8>) -> (texts: Vec<String>)
    ensures
        tells_keys(bytes@, texts@),
{
    let mut texts: Vec<String> = Vec::new();
    assert(views_of(texts@) =~= Seq::<Seq<char>>::empty());
    if keys_can_be_read(bytes) {
        tell_keys(bytes, &mut texts);
        assert(views_of(texts@) =~= json_of(keys_in(bytes@)));
        return texts;
    }
    let mut from: usize = 0;
    while from < bytes.len()
        invariant
            0 <= from <= bytes.len(),
            views_of(texts@) + told_by_parts(bytes@, from as int) == told_by_parts(bytes@, 0),
        decreases bytes.len() - from,
    {
        let end = find_escape(bytes, from + 1);
        let part = copy_part(bytes, from, end);
        let ghost before = views_of(texts@);
        if keys_can_be_read(&part) {
            tell_keys(&part, &mut texts);
        }
        proof {
            assert(views_of(texts@) == before + told_of_part(part@));
            assert((before + told_of_part(part@)) + told_by_parts(bytes@, end as int) =~= before
                + (told_of_part(part@) + told_by_parts(bytes@, end as int)));
        }
        from = end;
    }
    assert(views_of(texts@) + Seq::<Seq<char>>::empty() =~= views_of(texts@));
    texts
}

} // verus!
