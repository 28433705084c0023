//! The bar that tells where the link under the pointer leads.

use crate::document::Link;
use crate::viewer::clamp;
use vstd::prelude::*;

verus! {

/// A number in decimal digits, without leading zeros.
pub open spec fn digits_of(n: nat) -> Seq<u8>
    decreases n,
{
    if n < 10 {
        seq![(48 + n) as u8]
    } else {
        digits_of(n / 10).push((48 + n % 10) as u8)
    }
}

/// Writes a number in decimal digits.
pub fn digits(n: u64) -> (text: Vec<u8>)
    ensures
        text@ == digits_of(n as nat),
    decreases n,
{
    if n < 10 {
        let mut text: Vec<u8> = Vec::new();
        text.push(48 + n as u8);
        assert(text@ =~= digits_of(n as nat));
        text
    } else {
        let mut text = digits(n / 10);
        text.push(48 + (n % 10) as u8);
        text
    }
}

/// Number of bytes the bar may show: the given share of the terminal's
/// width, in thousandths, rounded down and not below zero.
pub open spec fn hint_width(terminal_width: u16, share: i64) -> int {
    if share <= 0 {
        0
    } else {
        clamp(terminal_width * share / 1000, 0, usize::MAX as int)
    }
}

/// The bytes `Page ` and a blank.
pub open spec fn page_label() -> Seq<u8> {
    seq![80u8, 97u8, 103u8, 101u8, 32u8]
}

/// What the bar shows for a link, in at most `width` bytes: nothing on a
/// bar narrower than five bytes; for a link that fits, its address, or the
/// number of its page, counted from 1, if the address begins with `#`; for a
/// link that does not fit, the beginning of its address and two dots.
pub open spec fn hint_text_of(uri: Seq<u8>, page: u32, width: int) -> Option<Seq<u8>> {
    if width < 5 {
        None
    } else if uri.len() <= width {
        if uri.len() > 0 && uri[0] == 35 {
            Some(page_label() + digits_of((page + 1) as nat))
        } else {
            Some(uri)
        }
    } else {
        Some(uri.take(width - 2) + seq![46u8, 46u8])
    }
}

/// Computes the number of bytes the bar may show.
pub fn uri_hint_width(terminal_width: u16, share: i64) -> (width: usize)
    ensures
        width == hint_width(terminal_width, share),
{
    if share <= 0 {
        return 0;
    }
    assert(0 <= terminal_width * share <= 0xFFFF * 0x7FFF_FFFF_FFFF_FFFF) by (nonlinear_arith)
        requires
            0 <= terminal_width <= 0xFFFF,
            0 < share <= 0x7FFF_FFFF_FFFF_FFFF,
    ;
    let wide: u128 = (terminal_width as u128) * (share as u128) / 1000;
    if wide > usize::MAX as u128 {
        usize::MAX
    } else {
        wide as usize
    }
}

/// Writes what the bar shows for a link with address `uri` that leads to
/// `page`.
pub fn hint_text(uri: &[u8], page: u32, width: usize) -> (text: Option<Vec<u8>>)
    ensures
        text is Some <==> hint_text_of(uri@, page, width as int) is Some,
        text matches Some(t) ==> Some(t@) == hint_text_of(uri@, page, width as int),
{
    if width < 5 {
        return None;
    }
    let mut text: Vec<u8> = Vec::new();
    if uri.len() <= width {
        if uri.len() > 0 && uri[0] == 35 {
            text.push(80);
            text.push(97);
            text.push(103);
            text.push(101);
            text.push(32);
            let mut number = digits(page as u64 + 1);
            text.append(&mut number);
            assert(text@ =~= page_label() + digits_of((page + 1) as nat));
        } else {
            append_bytes(&mut text, uri, uri.len());
            assert(uri@.take(uri@.len() as int) =~= uri@);
        }
    } else {
        append_bytes(&mut text, uri, width - 2);
        text.push(46);
        text.push(46);
        assert(text@ =~= uri@.take(width - 2) + seq![46u8, 46u8]);
    }
    Some(text)
}

/// Appends the first `n` bytes of `bytes` to `text`.
fn append_bytes(text: &mut Vec<u8>, bytes: &[u8], n: usize)
    requires
        n <= bytes@.len(),
    ensures
        final(text)@ == old(text)@ + bytes@.take(n as int),
{
    let mut i: usize = 0;
    while i < n
        invariant
            0 <= i <= n <= bytes@.len(),
            text@ == old(text)@ + bytes@.take(i as int),
        decreases n - i,
    {
        text.push(bytes[i]);
        assert(bytes@.take(i + 1) =~= bytes@.take(i as int).push(bytes@[i as int]));
        i = i + 1;
    }
    assert(bytes@.take(0) =~= Seq::<u8>::empty()) ;
}

/// What the bar shows for `link` on a terminal `terminal_width` pixels wide:
/// nothing when the bar is switched off.
pub fn uri_hint(link: &Link, enabled: bool, terminal_width: u16, share: i64) -> (text: Option<
    Vec<u8>,
>)
    ensures
        !enabled ==> text is None,
        enabled ==> (text is Some <==> hint_text_of(
            vstd::utf8::encode_utf8(link.uri@),
            link.page,
            hint_width(terminal_width, share),
        ) is Some),
        enabled ==> (text matches Some(t) ==> Some(t@) == hint_text_of(
            vstd::utf8::encode_utf8(link.uri@),
            link.page,
            hint_width(terminal_width, share),
        )),
{
    if !enabled {
        return None;
    }
    hint_text(link.uri.as_str().as_bytes(), link.page, uri_hint_width(terminal_width, share))
}

} // verus!
