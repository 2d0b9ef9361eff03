//! Compact, human-readable byte sizes with binary magnitude letters
//! (`0B`, `1.0K`, `1.5K`, `3.2M`).

use bytesize::ByteSize;
use vstd::prelude::*;
use vstd::string::*;

use crate::text::push_char;

verus! {

/// What `bytesize` renders for a byte count with binary (1024-based) units,
/// such as `"512 B"` or `"1.5 kiB"`.
pub uninterp spec fn binary_size_text(bytes: u64) -> Seq<char>;

/// What `str::to_uppercase` makes of a text.
pub uninterp spec fn upper_of(s: Seq<char>) -> Seq<char>;

/// `s` with every `"iB"` taken out, matched from the left without overlap.
pub open spec fn without_binary_suffix(s: Seq<char>) -> Seq<char>
    decreases s.len(),
{
    if s.len() == 0 {
        s
    } else if s.len() >= 2 && s[0] == 'i' && s[1] == 'B' {
        without_binary_suffix(s.skip(2))
    } else {
        seq![s[0]] + without_binary_suffix(s.skip(1))
    }
}

/// `s` with every space taken out.
pub open spec fn without_spaces(s: Seq<char>) -> Seq<char>
    decreases s.len(),
{
    if s.len() == 0 {
        s
    } else if s.last() == ' ' {
        without_spaces(s.drop_last())
    } else {
        without_spaces(s.drop_last()).push(s.last())
    }
}

/// The compact form of a rendered size: no `"iB"`, no spaces.
pub open spec fn compact_text(s: Seq<char>) -> Seq<char> {
    without_spaces(without_binary_suffix(s))
}

/// The humanized form of a byte count.
pub open spec fn humanized(bytes: u64) -> Seq<char> {
    upper_of(compact_text(binary_size_text(bytes)))
}

/// Relies on bytesize's `ByteSize::to_string_as(true)`: the rendering of a
/// byte count with 1024-based units, a function of the count alone.
#[verifier::external_body]
fn binary_size(bytes: u64) -> (r: String)
    ensures
        r@ == binary_size_text(bytes),
{
    ByteSize(bytes).to_string_as(true)
}

/// Relies on `str::to_uppercase`: the upper-case form of a text, a function
/// of its characters alone.
#[verifier::external_body]
fn uppercase(s: &str) -> (r: String)
    ensures
        r@ == upper_of(s@),
{
    s.to_uppercase()
}

/// Takes every `"iB"` out of `s`, matching from the left without overlap.
fn drop_binary_suffix(s: &str) -> (r: String)
    ensures
        r@ == without_binary_suffix(s@),
{
    let n = s.unicode_len();
    let mut out = String::new();
    let mut i: usize = 0;
    assert(s@.skip(0) =~= s@);
    assert(out@ + without_binary_suffix(s@.skip(0)) =~= without_binary_suffix(s@));
    while i < n
        invariant
            n == s@.len(),
            i <= n,
            out@ + without_binary_suffix(s@.skip(i as int)) == without_binary_suffix(s@),
        decreases n - i,
    {
        let ghost rest = s@.skip(i as int);
        let c = s.get_char(i);
        if c == 'i' && i + 1 < n && s.get_char(i + 1) == 'B' {
            assert(rest.skip(2) =~= s@.skip(i + 2));
            i = i + 2;
        } else {
            assert(rest.skip(1) =~= s@.skip(i + 1));
            push_char(&mut out, c);
            i = i + 1;
        }
    }
    assert(s@.skip(n as int) =~= Seq::<char>::empty());
    assert(out@ + Seq::<char>::empty() =~= out@);
    out
}

/// Takes every space out of `s`.
fn drop_spaces(s: &str) -> (r: String)
    ensures
        r@ == without_spaces(s@),
{
    let n = s.unicode_len();
    let mut out = String::new();
    let mut i: usize = 0;
    assert(s@.take(0) =~= Seq::<char>::empty());
    while i < n
        invariant
            n == s@.len(),
            i <= n,
            out@ == without_spaces(s@.take(i as int)),
        decreases n - i,
    {
        let c = s.get_char(i);
        assert(s@.take(i + 1).drop_last() =~= s@.take(i as int));
        if c != ' ' {
            push_char(&mut out, c);
        }
        i = i + 1;
    }
    assert(s@.take(n as int) =~= s@);
    out
}

/// Turns a rendered size such as `"1.5 kiB"` into its compact form `"1.5k"`:
/// every `"iB"` and every space taken out.
pub fn compact(s: &str) -> (r: String)
    ensures
        r@ == compact_text(s@),
{
    let t = drop_binary_suffix(s);
    drop_spaces(t.as_str())
}

/// Renders a byte count compactly, in upper case, with binary magnitude
/// letters: `0B`, `1.0K`, `1.5K`.
pub fn humanize(bytes: u64) -> (r: String)
    ensures
        r@ == humanized(bytes),
{
    let full = binary_size(bytes);
    let short = compact(full.as_str());
    uppercase(short.as_str())
}

} // verus!
