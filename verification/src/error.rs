use vstd::prelude::*;

verus! {

/// The kinds of record that a lookup by id can fail to find.
#[derive(Clone, Copy, Debug, PartialEq, Eq, Structural)]
pub enum RecordKind {
    Party,
    Branch,
    Donor,
}

/// Why a query did not give a result.
#[derive(Clone, Debug, PartialEq, Eq)]
pub enum QueryError {
    /// No record with the requested id exists; the text says which.
    RecordNotFound(String),
}

/// The character of the decimal digit `d` (`0 <= d < 10`).
pub open spec fn digit_char(d: int) -> char {
    (48 + d) as char
}

/// The decimal digits of `n`, most significant first, with no leading zero
/// (`0` is written as a single digit).
pub open spec fn digits(n: nat) -> Seq<char>
    decreases n,
{
    if n < 10 {
        seq![digit_char(n as int)]
    } else {
        digits(n / 10).push(digit_char((n % 10) as int))
    }
}

/// `i` written in decimal, with a leading `-` when it is negative.
pub open spec fn decimal(i: int) -> Seq<char> {
    if i < 0 {
        seq!['-'] + digits((-i) as nat)
    } else {
        digits(i as nat)
    }
}

/// The name under which a kind of record appears in messages.
pub open spec fn kind_name(kind: RecordKind) -> Seq<char> {
    match kind {
        RecordKind::Party => seq!['P', 'a', 'r', 't', 'y'],
        RecordKind::Branch => seq!['B', 'r', 'a', 'n', 'c', 'h'],
        RecordKind::Donor => seq!['D', 'o', 'n', 'o', 'r'],
    }
}

/// "<Kind> with id <id> not found".
pub open spec fn not_found_text(kind: RecordKind, id: int) -> Seq<char> {
    kind_name(kind) + seq![' ', 'w', 'i', 't', 'h', ' ', 'i', 'd', ' '] + decimal(id)
        + seq![' ', 'n', 'o', 't', ' ', 'f', 'o', 'u', 'n', 'd']
}

/// The number that a string of decimal digits denotes.
pub open spec fn digits_value(s: Seq<char>) -> int
    decreases s.len(),
{
    if s.len() == 0 {
        0
    } else {
        digits_value(s.drop_last()) * 10 + ((s.last() as int) - ('0' as int))
    }
}

/// The digits of `n` are decimal digits, with no leading zero, and read back
/// in base ten they give `n`.
pub proof fn digits_denote(n: nat)
    ensures
        digits(n).len() >= 1,
        forall|i: int| 0 <= i < digits(n).len() ==> '0' <= #[trigger] digits(n)[i] <= '9',
        n > 0 ==> digits(n)[0] != '0',
        n == 0 ==> digits(n) == seq!['0'],
        digits_value(digits(n)) == n,
    decreases n,
{
    if n >= 10 {
        digits_denote(n / 10);
        let init = digits(n / 10);
        assert(digits(n).drop_last() =~= init);
        assert(digits(n)[0] == init[0]);
        assert(digits(n).last() == digit_char((n % 10) as int));
        assert((digit_char((n % 10) as int) as int) == 48 + n % 10);
        assert(n == (n / 10) * 10 + n % 10);
        assert(('0' as int) == 48);
        assert(digits_value(digits(n)) == digits_value(init) * 10 + ((digits(n).last() as int) - (
        '0' as int)));
        assert forall|i: int| 0 <= i < digits(n).len() implies '0' <= #[trigger] digits(n)[i]
            <= '9' by {
            if i < init.len() {
                assert(digits(n)[i] == init[i]);
            }
        }
    } else {
        assert(digits(n).drop_last() =~= Seq::<char>::empty());
        assert((digit_char(n as int) as int) == 48 + n);
        assert(('0' as int) == 48);
        assert(digits_value(digits(n)) == digits_value(Seq::<char>::empty()) * 10 + ((digits(n).last() as int) - ('0' as int)));
    }
}

/// A negative number is written as `-` and the digits of its magnitude; any
/// other number as its digits alone.
pub proof fn decimal_sign(i: int)
    ensures
        i < 0 ==> decimal(i)[0] == '-' && decimal(i).subrange(1, decimal(i).len() as int) == digits(
            (-i) as nat,
        ),
        i >= 0 ==> decimal(i) == digits(i as nat),
{
    if i < 0 {
        assert((seq!['-'] + digits((-i) as nat)).subrange(1, decimal(i).len() as int) =~= digits(
            (-i) as nat,
        ));
    }
}

/// The message of a failed lookup reads "<Kind> with id <id> not found", with
/// the kind named as the original messages name it.
pub proof fn not_found_text_reads(id: int)
    ensures
        not_found_text(RecordKind::Party, id) == "Party with id "@ + decimal(id) + " not found"@,
        not_found_text(RecordKind::Branch, id) == "Branch with id "@ + decimal(id) + " not found"@,
        not_found_text(RecordKind::Donor, id) == "Donor with id "@ + decimal(id) + " not found"@,
{
    reveal_strlit("Party with id ");
    reveal_strlit("Branch with id ");
    reveal_strlit("Donor with id ");
    reveal_strlit(" not found");
    assert(not_found_text(RecordKind::Party, id) =~= "Party with id "@ + decimal(id) + " not found"@);
    assert(not_found_text(RecordKind::Branch, id) =~= "Branch with id "@ + decimal(id) + " not found"@);
    assert(not_found_text(RecordKind::Donor, id) =~= "Donor with id "@ + decimal(id) + " not found"@);
}

/// Appends `c` to `s` (`String::push`).
#[verifier::external_body]
fn push_char(s: &mut String, c: char)
    ensures
        final(s)@ == old(s)@.push(c),
{
    s.push(c);
}

fn push_str_chars(s: &mut String, chars: &[char])
    ensures
        final(s)@ == old(s)@ + chars@,
{
    let n = chars.len();
    let ghost start = s@;
    for i in 0..n
        invariant
            n == chars@.len(),
            s@ == start + chars@.take(i as int),
    {
        assert(chars@.take(i + 1) =~= chars@.take(i as int).push(chars@[i as int]));
        push_char(s, chars[i]);
    }
    assert(chars@.take(n as int) =~= chars@);
}

fn push_digits(s: &mut String, n: u64)
    ensures
        final(s)@ == old(s)@ + digits(n as nat),
    decreases n,
{
    if n >= 10 {
        push_digits(s, n / 10);
    }
    let d: u64 = n % 10;
    let c = ((d as u8) + 48u8) as char;
    assert(c == digit_char(d as int));
    push_char(s, c);
    proof {
        if n >= 10 {
            assert(digits(n as nat) == digits((n / 10) as nat).push(digit_char((n % 10) as int)));
        }
    }
}

/// Appends `i` in decimal to `s`.
pub fn push_decimal(s: &mut String, i: i32)
    ensures
        final(s)@ == old(s)@ + decimal(i as int),
{
    if i < 0 {
        push_char(s, '-');
        let magnitude: i64 = -(i as i64);
        push_digits(s, magnitude as u64);
    } else {
        push_digits(s, i as u64);
    }
}

/// The message of a failed lookup: "Party with id 7 not found".
pub fn not_found_message(kind: RecordKind, id: i32) -> (message: String)
    ensures
        message@ == not_found_text(kind, id as int),
{
    let mut s = String::new();
    match kind {
        RecordKind::Party => push_str_chars(&mut s, &['P', 'a', 'r', 't', 'y']),
        RecordKind::Branch => push_str_chars(&mut s, &['B', 'r', 'a', 'n', 'c', 'h']),
        RecordKind::Donor => push_str_chars(&mut s, &['D', 'o', 'n', 'o', 'r']),
    }
    push_str_chars(&mut s, &[' ', 'w', 'i', 't', 'h', ' ', 'i', 'd', ' ']);
    push_decimal(&mut s, id);
    push_str_chars(&mut s, &[' ', 'n', 'o', 't', ' ', 'f', 'o', 'u', 'n', 'd']);
    s
}

/// The error of a lookup of a `kind` record by `id` that found nothing.
pub fn record_not_found(kind: RecordKind, id: i32) -> (err: QueryError)
    ensures
        err matches QueryError::RecordNotFound(message) && message@ == not_found_text(kind, id as int),
{
    QueryError::RecordNotFound(not_found_message(kind, id))
}

} // verus!
