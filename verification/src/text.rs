//! The text that addresses and images are shown as.

use crate::image::Image;
use crate::ptr::Uintptr;
use vstd::prelude::*;
use vstd::string::StringExecFns;

verus! {

/// The lower-case hexadecimal digit of value `d`.
pub open spec fn hex_char(d: int) -> char {
    if d < 10 {
        (48 + d) as char
    } else {
        (87 + d) as char
    }
}

/// The lower-case hexadecimal digits of `x`, without leading zeros (`0` for zero).
pub open spec fn hex_text(x: nat) -> Seq<char>
    decreases x,
{
    if x < 16 {
        seq![hex_char(x as int)]
    } else {
        hex_text(x / 16).push(hex_char((x % 16) as int))
    }
}

/// The value of a hexadecimal digit character (`0`-`9`, `a`-`f`), or -1 for
/// any other character.
pub open spec fn hex_digit_value(c: char) -> int {
    if 48 <= c as int <= 57 {
        c as int - 48
    } else if 97 <= c as int <= 102 {
        c as int - 87
    } else {
        -1
    }
}

/// Whether `s` is a non-empty string of hexadecimal digits.
pub open spec fn is_hex_digits(s: Seq<char>) -> bool {
    s.len() > 0 && forall|i: int| 0 <= i < s.len() ==> 0 <= #[trigger] hex_digit_value(s[i]) < 16
}

/// The number that the hexadecimal digits `s` write, most significant first.
pub open spec fn hex_value(s: Seq<char>) -> int
    decreases s.len(),
{
    if s.len() == 0 {
        0
    } else {
        hex_value(s.drop_last()) * 16 + hex_digit_value(s.last())
    }
}

/// The digits of `x` are hexadecimal digits and read back as `x`.
pub proof fn lemma_hex_text_reads_back(x: nat)
    ensures
        is_hex_digits(hex_text(x)),
        hex_value(hex_text(x)) == x,
    decreases x,
{
    let t = hex_text(x);
    if x < 16 {
        assert(t.drop_last() =~= Seq::<char>::empty());
        assert(hex_digit_value(hex_char(x as int)) == x);
        assert(t.last() == hex_char(x as int));
        assert(hex_value(t) == hex_value(t.drop_last()) * 16 + hex_digit_value(t.last()));
        assert(hex_value(Seq::<char>::empty()) == 0);
    } else {
        lemma_hex_text_reads_back(x / 16);
        let d = (x % 16) as int;
        assert(t.drop_last() =~= hex_text(x / 16));
        assert(t.last() == hex_char(d));
        assert(hex_digit_value(hex_char(d)) == d);
        vstd::arithmetic::div_mod::lemma_fundamental_div_mod(x as int, 16);
        assert(hex_value(t) == hex_value(t.drop_last()) * 16 + hex_digit_value(t.last()));
        assert(hex_value(t) == (x / 16) as int * 16 + d);
        assert forall|i: int| 0 <= i < t.len() implies 0 <= #[trigger] hex_digit_value(t[i]) < 16 by {
            if i < t.len() - 1 {
                assert(t[i] == hex_text(x / 16)[i]);
            }
        }
    }
}

/// An address as it is shown: `0x` and its hexadecimal digits.
pub open spec fn address_text(p: Uintptr) -> Seq<char> {
    seq!['0', 'x'] + hex_text(p.value() as nat)
}

/// The hexadecimal digit of value `d`.
fn hex_digit(d: usize) -> (r: &'static str)
    requires
        d < 16,
    ensures
        r@ == seq![hex_char(d as int)],
{
    let digits = "0123456789abcdef";
    proof {
        reveal_strlit("0123456789abcdef");
    }
    let r = digits.substring_char(d, d + 1);
    assert(r@ =~= seq![hex_char(d as int)]);
    r
}

/// Appends the hexadecimal digits of `x` to `s`.
fn push_hex(s: &mut String, x: usize)
    ensures
        final(s)@ == old(s)@ + hex_text(x as nat),
    decreases x,
{
    if x >= 16 {
        push_hex(s, x / 16);
    }
    s.append(hex_digit(x % 16));
    proof {
        if x >= 16 {
            assert(final(s)@ =~= old(s)@ + hex_text(x as nat));
        }
    }
}

/// The text of an address is `0x` followed by hexadecimal digits that read
/// back as the whole value of the address.
pub proof fn lemma_address_text_reads_back(p: Uintptr)
    ensures
        address_text(p).len() >= 3,
        address_text(p)[0] == '0',
        address_text(p)[1] == 'x',
        is_hex_digits(address_text(p).skip(2)),
        hex_value(address_text(p).skip(2)) == p.value(),
{
    Uintptr::lemma_value_range(p);
    lemma_hex_text_reads_back(p.value() as nat);
    assert(address_text(p).skip(2) =~= hex_text(p.value() as nat));
}

impl Uintptr {
    /// The address as it is shown: `0x` followed by its hexadecimal digits.
    pub fn to_debug_string(self) -> (r: String)
        ensures
            r@ == address_text(self),
            r@.len() >= 3 && r@[0] == '0' && r@[1] == 'x',
            is_hex_digits(r@.skip(2)),
            hex_value(r@.skip(2)) == self.value(),
    {
        proof {
            lemma_address_text_reads_back(self);
        }
        let mut s = String::from_str("0x");
        proof {
            reveal_strlit("0x");
        }
        push_hex(&mut s, self.addr());
        assert(s@ =~= address_text(self));
        s
    }
}

/// An image as it is shown: `Image(<base>-<end>,entry=<main>)`.
pub open spec fn image_text(img: Image) -> Seq<char> {
    seq!['I', 'm', 'a', 'g', 'e', '('] + address_text(img.base) + seq!['-'] + address_text(
        img.base.displaced(img.size as int),
    ) + seq![',', 'e', 'n', 't', 'r', 'y', '='] + address_text(img.main) + seq![')']
}

impl Image {
    /// The image as it is shown: its reserved range and its entry point.
    pub fn to_debug_string(&self) -> (r: String)
        ensures
            r@ == image_text(*self),
    {
        let mut s = String::from_str("Image(");
        s.append(self.base.to_debug_string().as_str());
        s.append("-");
        s.append(self.end().to_debug_string().as_str());
        s.append(",entry=");
        s.append(self.main.to_debug_string().as_str());
        s.append(")");
        proof {
            reveal_strlit("Image(");
            reveal_strlit("-");
            reveal_strlit(",entry=");
            reveal_strlit(")");
        }
        assert(s@ =~= image_text(*self));
        s
    }
}

} // verus!
