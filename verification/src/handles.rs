//! Handle identifiers.
//!
//! Every engine-side resource is named by a handle: 32 hexadecimal
//! characters, the simple textual form of a 128-bit identifier. The
//! engine mints handles from a counter, writing the counter's value as
//! the low 16 digits; [`lemma_handle_injective`] shows two different
//! counter values never collide, which is what makes a freshly minted
//! handle distinct from every handle minted before it.

use vstd::prelude::*;

verus! {

/// The sixteen lowercase hexadecimal digit characters.
pub open spec fn hex_digit(d: int) -> char {
    if d == 0 {
        '0'
    } else if d == 1 {
        '1'
    } else if d == 2 {
        '2'
    } else if d == 3 {
        '3'
    } else if d == 4 {
        '4'
    } else if d == 5 {
        '5'
    } else if d == 6 {
        '6'
    } else if d == 7 {
        '7'
    } else if d == 8 {
        '8'
    } else if d == 9 {
        '9'
    } else if d == 10 {
        'a'
    } else if d == 11 {
        'b'
    } else if d == 12 {
        'c'
    } else if d == 13 {
        'd'
    } else if d == 14 {
        'e'
    } else {
        'f'
    }
}

/// Whether `c` is a lowercase hexadecimal digit character.
pub open spec fn is_hex_char(c: char) -> bool {
    ('0' <= c && c <= '9') || ('a' <= c && c <= 'f')
}

/// `n` written as exactly `width` hexadecimal digits, most significant
/// first.
pub open spec fn hex_seq(n: nat, width: nat) -> Seq<char>
    decreases width,
{
    if width == 0 {
        Seq::empty()
    } else {
        hex_seq(n / 16, (width - 1) as nat) + seq![hex_digit((n % 16) as int)]
    }
}

/// Sixteen to the given power.
pub open spec fn pow16(w: nat) -> nat
    decreases w,
{
    if w == 0 {
        1
    } else {
        16 * pow16((w - 1) as nat)
    }
}

/// The handle text minted for counter value `n`: sixteen zero digits
/// followed by `n`'s sixteen hexadecimal digits.
pub open spec fn spec_handle(n: nat) -> Seq<char> {
    hex_seq(0, 16) + hex_seq(n, 16)
}

/// A handle is 32 hexadecimal characters: the simple form an identifier
/// parser accepts.
pub open spec fn is_simple_id(s: Seq<char>) -> bool {
    s.len() == 32 && forall|i: int| 0 <= i < 32 ==> is_hex_char(#[trigger] s[i])
}

/// A hexadecimal digit sequence has its stated width and holds only
/// hexadecimal digit characters.
pub proof fn lemma_hex_seq_shape(n: nat, width: nat)
    ensures
        hex_seq(n, width).len() == width,
        forall|i: int| 0 <= i < width ==> is_hex_char(#[trigger] hex_seq(n, width)[i]),
    decreases width,
{
    if width > 0 {
        lemma_hex_seq_shape(n / 16, (width - 1) as nat);
    }
}

/// Writing two values below `16^width` as `width` digits distinguishes
/// them: the digit text determines the value.
pub proof fn lemma_hex_seq_injective(a: nat, b: nat, width: nat)
    requires
        a < pow16(width),
        b < pow16(width),
        hex_seq(a, width) == hex_seq(b, width),
    ensures
        a == b,
    decreases width,
{
    if width > 0 {
        let sa = hex_seq(a / 16, (width - 1) as nat);
        let sb = hex_seq(b / 16, (width - 1) as nat);
        lemma_hex_seq_shape(a / 16, (width - 1) as nat);
        lemma_hex_seq_shape(b / 16, (width - 1) as nat);
        let full_a = sa + seq![hex_digit((a % 16) as int)];
        let full_b = sb + seq![hex_digit((b % 16) as int)];
        assert(full_a[width - 1] == hex_digit((a % 16) as int));
        assert(full_b[width - 1] == hex_digit((b % 16) as int));
        assert(a % 16 == b % 16);
        assert(sa =~= sb) by {
            assert(forall|i: int| 0 <= i < width - 1 ==> full_a[i] == sa[i] && full_b[i] == sb[i]);
        }
        assert(a / 16 < pow16((width - 1) as nat)) by (nonlinear_arith)
            requires
                a < pow16(width),
                pow16(width) == 16 * pow16((width - 1) as nat),
        ;
        assert(b / 16 < pow16((width - 1) as nat)) by (nonlinear_arith)
            requires
                b < pow16(width),
                pow16(width) == 16 * pow16((width - 1) as nat),
        ;
        lemma_hex_seq_injective(a / 16, b / 16, (width - 1) as nat);
        assert(a == 16 * (a / 16) + a % 16) by (nonlinear_arith);
        assert(b == 16 * (b / 16) + b % 16) by (nonlinear_arith);
    }
}

/// Every 64-bit counter value lies below `16^16`.
pub proof fn lemma_pow16_16()
    ensures
        pow16(16) == 0x1_0000_0000_0000_0000,
{
    assert(pow16(0) == 1);
    assert(pow16(1) == 16);
    assert(pow16(2) == 0x100);
    assert(pow16(3) == 0x1000);
    assert(pow16(4) == 0x1_0000);
    assert(pow16(5) == 0x10_0000);
    assert(pow16(6) == 0x100_0000);
    assert(pow16(7) == 0x1000_0000);
    assert(pow16(8) == 0x1_0000_0000);
    assert(pow16(9) == 0x10_0000_0000);
    assert(pow16(10) == 0x100_0000_0000);
    assert(pow16(11) == 0x1000_0000_0000);
    assert(pow16(12) == 0x1_0000_0000_0000);
    assert(pow16(13) == 0x10_0000_0000_0000);
    assert(pow16(14) == 0x100_0000_0000_0000);
    assert(pow16(15) == 0x1000_0000_0000_0000);
    assert(pow16(16) == 0x1_0000_0000_0000_0000);
}

/// Handles minted for different counter values differ.
pub proof fn lemma_handle_injective(a: nat, b: nat)
    requires
        a < 0x1_0000_0000_0000_0000,
        b < 0x1_0000_0000_0000_0000,
        spec_handle(a) == spec_handle(b),
    ensures
        a == b,
{
    lemma_pow16_16();
    lemma_hex_seq_shape(0, 16);
    lemma_hex_seq_shape(a, 16);
    lemma_hex_seq_shape(b, 16);
    assert(hex_seq(a, 16) =~= hex_seq(b, 16)) by {
        let ha = spec_handle(a);
        let hb = spec_handle(b);
        assert(forall|i: int|
            0 <= i < 16 ==> ha[16 + i] == hex_seq(a, 16)[i] && hb[16 + i] == hex_seq(b, 16)[i]);
    }
    lemma_hex_seq_injective(a, b, 16);
}

/// A minted handle is 32 hexadecimal characters.
pub proof fn lemma_handle_is_simple(n: nat)
    ensures
        is_simple_id(spec_handle(n)),
{
    lemma_hex_seq_shape(0, 16);
    lemma_hex_seq_shape(n, 16);
}

/// The digit character for one value below sixteen.
fn hex_digit_str(d: u64) -> (r: &'static str)
    requires
        d < 16,
    ensures
        r@ =~= seq![hex_digit(d as int)],
{
    proof {
        reveal_strlit("0");
        reveal_strlit("1");
        reveal_strlit("2");
        reveal_strlit("3");
        reveal_strlit("4");
        reveal_strlit("5");
        reveal_strlit("6");
        reveal_strlit("7");
        reveal_strlit("8");
        reveal_strlit("9");
        reveal_strlit("a");
        reveal_strlit("b");
        reveal_strlit("c");
        reveal_strlit("d");
        reveal_strlit("e");
        reveal_strlit("f");
    }
    if d == 0 {
        "0"
    } else if d == 1 {
        "1"
    } else if d == 2 {
        "2"
    } else if d == 3 {
        "3"
    } else if d == 4 {
        "4"
    } else if d == 5 {
        "5"
    } else if d == 6 {
        "6"
    } else if d == 7 {
        "7"
    } else if d == 8 {
        "8"
    } else if d == 9 {
        "9"
    } else if d == 10 {
        "a"
    } else if d == 11 {
        "b"
    } else if d == 12 {
        "c"
    } else if d == 13 {
        "d"
    } else if d == 14 {
        "e"
    } else {
        "f"
    }
}

/// Appends `n` written as exactly `width` hexadecimal digits.
fn push_hex(out: &mut String, n: u64, width: u8)
    requires
        width <= 16,
    ensures
        final(out)@ == old(out)@ + hex_seq(n as nat, width as nat),
    decreases width,
{
    if width == 0 {
        proof {
            assert(old(out)@ + hex_seq(n as nat, 0) =~= old(out)@);
        }
    } else {
        push_hex(out, n / 16, width - 1);
        let d = hex_digit_str(n % 16);
        let ghost before = out@;
        out.append(d);
        proof {
            assert(n as nat / 16 == (n / 16) as nat);
            assert(n as nat % 16 == (n % 16) as nat);
            assert(before + d@ =~= old(out)@ + hex_seq(n as nat, width as nat));
        }
    }
}

/// The handle text for counter value `n`, exactly [`spec_handle`].
pub fn mint_handle(n: u64) -> (r: String)
    ensures
        r@ == spec_handle(n as nat),
        is_simple_id(r@),
{
    let mut out = String::new();
    push_hex(&mut out, 0, 16);
    push_hex(&mut out, n, 16);
    proof {
        assert(out@ =~= spec_handle(n as nat));
        lemma_handle_is_simple(n as nat);
    }
    out
}

} // verus!
