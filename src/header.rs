use vstd::prelude::*;
use vstd::string::*;
use crate::symbols::ApiSymbols;
use crate::text::{append, append_char};

verus! {

/// The digits of a hexadecimal numeral, upper case.
pub const HEX_DIGITS: &'static str = "0123456789ABCDEF";

pub open spec fn hex_char(d: nat) -> char {
    HEX_DIGITS@[d as int]
}

pub open spec fn pow16(n: nat) -> nat
    decreases n,
{
    if n == 0 {
        1
    } else {
        16 * pow16((n - 1) as nat)
    }
}

proof fn lemma_pow16_positive(n: nat)
    ensures
        pow16(n) >= 1,
    decreases n,
{
    if n > 0 {
        lemma_pow16_positive((n - 1) as nat);
    }
}

/// `v` as eight upper-case hexadecimal digits, most significant first.
pub open spec fn hex8(v: u32) -> Seq<char> {
    Seq::new(8, |i: int| hex_char((v as nat / pow16((7 - i) as nat)) % 16))
}

/// The line that defines the API version macro.
pub open spec fn version_line(v: u32) -> Seq<char> {
    "#define API_VERSION 0x"@ + hex8(v)
}

/// One line per header, each begun by a newline: `#include "<path>"`.
pub open spec fn include_lines(headers: Seq<Seq<char>>) -> Seq<char>
    decreases headers.len(),
{
    if headers.len() == 0 {
        Seq::empty()
    } else {
        include_lines(headers.drop_last()) + "\n#include \""@ + headers.last() + "\""@
    }
}

/// The synthetic root header: the version macro, then the includes in order.
pub open spec fn bindings_header(v: u32, headers: Seq<Seq<char>>) -> Seq<char> {
    version_line(v) + include_lines(headers)
}

/// Appends `v` to `s` as eight upper-case hexadecimal digits.
pub fn append_hex8(s: &mut String, v: u32)
    ensures
        final(s)@ == old(s)@ + hex8(v),
{
    proof {
        reveal_strlit("0123456789ABCDEF");
        reveal_with_fuel(pow16, 8);
    }
    let ghost start = s@;
    let mut p: u32 = 0x10000000;
    let mut i: usize = 0;
    while i < 8
        invariant
            i <= 8,
            s@ == start + hex8(v).take(i as int),
            i < 8 ==> p as nat == pow16((7 - i) as nat),
            HEX_DIGITS@.len() == 16,
        decreases 8 - i,
    {
        proof {
            lemma_pow16_positive((7 - i) as nat);
        }
        let d = (v / p) % 16;
        let c = HEX_DIGITS.get_char(d as usize);
        assert(c == hex8(v)[i as int]);
        append_char(s, c);
        assert(hex8(v).take(i + 1) == hex8(v).take(i as int).push(c));
        if i < 7 {
            proof {
                let k = (6 - i) as nat;
                assert(pow16((k + 1) as nat) == 16 * pow16(k));
                assert((16 * pow16(k)) / 16 == pow16(k)) by (nonlinear_arith);
            }
            p = p / 16;
        }
        i = i + 1;
    }
    assert(hex8(v).take(8) == hex8(v));
}

/// Writes the synthetic root header for `api_symbols`: a first line that
/// defines `API_VERSION` as an eight-digit hexadecimal literal, then one
/// `#include` line for each header, in manifest order.
pub fn generate_bindings_header(api_symbols: &ApiSymbols) -> (r: String)
    ensures
        r@ == bindings_header(api_symbols@.api_version, api_symbols@.headers),
{
    let mut s = String::new();
    append(&mut s, "#define API_VERSION 0x");
    append_hex8(&mut s, api_symbols.api_version);
    let ghost hs = api_symbols@.headers;
    let mut i: usize = 0;
    assert(hs.take(0) =~= Seq::<Seq<char>>::empty());
    while i < api_symbols.headers.len()
        invariant
            i <= api_symbols.headers.len(),
            hs == api_symbols@.headers,
            s@ == version_line(api_symbols.api_version) + include_lines(hs.take(i as int)),
        decreases api_symbols.headers.len() - i,
    {
        let h = api_symbols.headers[i].as_str();
        assert(h@ == hs[i as int]);
        append(&mut s, "\n#include \"");
        append(&mut s, h);
        append(&mut s, "\"");
        assert(hs.take(i + 1).drop_last() == hs.take(i as int));
        i = i + 1;
    }
    assert(hs.take(i as int) == hs);
    s
}

} // verus!
