use vstd::prelude::*;
use vstd::utf8::encode_utf8;
use vstd::utf8::is_char_boundary;

verus! {

/// The character of decimal digit `d`.
pub open spec fn digit_char(d: int) -> char {
    (48 + d) as char
}

/// The decimal digits of `n`, most significant first.
pub open spec fn decimal(n: nat) -> Seq<char>
    decreases n,
{
    if n < 10 {
        seq![digit_char(n as int)]
    } else {
        decimal(n / 10).push(digit_char((n % 10) as int))
    }
}

fn push_digit(s: &mut String, d: u64)
    requires
        d < 10,
    ensures
        final(s)@ == old(s)@.push(digit_char(d as int)),
{
    proof {
        reveal_strlit("0");
        reveal_strlit("1");
        reveal_strlit("2");
        reveal_strlit("3");
        reveal_strlit("4");
        reveal_strlit("5");
        reveal_strlit("6");
        reveal_strlit("7");
        reveal_strlit("8");
        reveal_strlit("9");
    }
    let digit: &str = if d == 0 {
        "0"
    } else if d == 1 {
        "1"
    } else if d == 2 {
        "2"
    } else if d == 3 {
        "3"
    } else if d == 4 {
        "4"
    } else if d == 5 {
        "5"
    } else if d == 6 {
        "6"
    } else if d == 7 {
        "7"
    } else if d == 8 {
        "8"
    } else {
        "9"
    };
    assert(digit@ =~= seq![digit_char(d as int)]);
    s.append(digit);
}

/// Appends `n` in decimal to `s`.
pub fn push_decimal(s: &mut String, n: u64)
    ensures
        final(s)@ == old(s)@ + decimal(n as nat),
    decreases n,
{
    if n >= 10 {
        push_decimal(s, n / 10);
    }
    push_digit(s, n % 10);
    assert(final(s)@ =~= old(s)@ + decimal(n as nat));
}

/// The message of a packet from protocol version `got` where `expected`
/// is spoken.
pub open spec fn version_mismatch_msg(got: u8, expected: u8) -> Seq<char> {
    "protocol version mismatch: got "@ + decimal(got as nat) + ", expected "@ + decimal(expected as nat)
}

/// The message of a delta numbered `got` where `expected` was due.
pub open spec fn seq_gap_msg(expected: u64, got: u32) -> Seq<char> {
    "seq gap: expected "@ + decimal(expected as nat) + ", got "@ + decimal(got as nat) + " (resync needed)"@
}

/// The message of a version mismatch; see `version_mismatch_msg`.
pub fn version_mismatch_text(got: u8, expected: u8) -> (r: String)
    ensures
        r@ == version_mismatch_msg(got, expected),
{
    let mut r = "protocol version mismatch: got ".to_owned();
    push_decimal(&mut r, got as u64);
    r.append(", expected ");
    push_decimal(&mut r, expected as u64);
    r
}

/// The message of a sequence gap; see `seq_gap_msg`.
pub fn seq_gap_text(expected: u64, got: u32) -> (r: String)
    ensures
        r@ == seq_gap_msg(expected, got),
{
    let mut r = "seq gap: expected ".to_owned();
    push_decimal(&mut r, expected);
    r.append(", got ");
    push_decimal(&mut r, got as u64);
    r.append(" (resync needed)");
    r
}

/// The UTF-8 encoding of `s`, cut after its first `max` bytes.
pub open spec fn cut_bytes(s: Seq<char>, max: int) -> Seq<u8> {
    let b = encode_utf8(s);
    if b.len() <= max {
        b
    } else {
        b.subrange(0, max)
    }
}

/// Whether `s` can be cut after byte `max`: it is no longer than that, or
/// byte `max` starts a character.
pub open spec fn cuttable(s: Seq<char>, max: int) -> bool {
    encode_utf8(s).len() <= max || is_char_boundary(encode_utf8(s), max)
}

/// `s` cut to its first `max` bytes; a cut inside a character is refused
/// by the `requires`, as `String::truncate` panics there.
pub fn truncate_bytes(s: String, max: usize) -> (r: String)
    requires
        cuttable(s@, max as int),
    ensures
        encode_utf8(r@) == cut_bytes(s@, max as int),
        encode_utf8(s@).len() <= max ==> r@ == s@,
{
    if s.as_str().as_bytes().len() <= max {
        s
    } else {
        let whole = s.as_str();
        let (head, _) = whole.split_at(max);
        assert(whole@ == s@);
        assert(encode_utf8(head@) =~= encode_utf8(s@).subrange(0, max as int));
        head.to_owned()
    }
}

} // verus!
