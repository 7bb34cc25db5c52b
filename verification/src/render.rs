//! Rendering a job into the HTML document handed to the PDF engine.
//!
//! The document is one page ("card") per recipient, in input order; each card
//! carries the sender's return block and the recipient's block. Every field
//! is emitted verbatim, one line each; an absent optional field contributes
//! nothing. The page style carries the chosen width and height.

use vstd::prelude::*;
use vstd::string::StrSliceExecFns;
use vstd::string::StringExecFns;

use crate::address::{addrs_view, opt_view, Address, AddressV};
use crate::job::{Job, JobV};
use crate::text::{char_of_u32, chars_to_string};

verus! {

/// The digit character of `d` (for `0 <= d <= 9`).
pub open spec fn dec_digit(d: int) -> char {
    (48 + d) as char
}

/// Decimal text of `n`, most significant digit first.
pub open spec fn dec_str(n: int) -> Seq<char>
    decreases n,
{
    if 0 <= n < 10 {
        seq![dec_digit(n)]
    } else if n >= 10 {
        dec_str(n / 10) + seq![dec_digit(n % 10)]
    } else {
        Seq::empty()
    }
}

/// One line of an address block.
pub open spec fn line(t: Seq<char>) -> Seq<char> {
    "<p>"@ + t + "</p>"@
}

/// The line of an optional field: nothing when the field is absent.
pub open spec fn opt_line(t: Option<Seq<char>>) -> Seq<char> {
    match t {
        Some(x) => line(x),
        None => Seq::empty(),
    }
}

/// The HTML fragment for one address: its fields in order, one line each.
pub open spec fn address_block(a: AddressV) -> Seq<char> {
    opt_line(a.name) + line(a.address_1) + opt_line(a.address_2) + line(a.city) + opt_line(a.state)
        + line(a.post_code) + line(a.country)
}

/// The HTML for one envelope: the sender's return block, then the recipient.
pub open spec fn card(sender: AddressV, a: AddressV) -> Seq<char> {
    "<div class=\"card\"><div class=\"sender\">"@ + address_block(sender)
        + "</div><div class=\"recipient\">"@ + address_block(a) + "</div></div>"@
}

/// The cards of the recipients at or after `i`, in order.
pub open spec fn cards_from(sender: AddressV, aa: Seq<AddressV>, i: int) -> Seq<char>
    decreases aa.len() - i,
{
    if !(0 <= i < aa.len()) {
        Seq::empty()
    } else {
        card(sender, aa[i]) + cards_from(sender, aa, i + 1)
    }
}

/// The document head, carrying the page size in millimeters.
pub open spec fn html_head(width: u32, height: u32) -> Seq<char> {
    "<!DOCTYPE html><html><head><meta charset=\"utf-8\"><style>@page { size: "@ + dec_str(
        width as int,
    ) + "mm "@ + dec_str(height as int)
        + "mm; margin: 0; } .card { page-break-after: always; } p { margin: 0; }</style></head><body>"@
}

/// The whole rendered document.
pub open spec fn render_spec(j: JobV) -> Seq<char> {
    html_head(j.width, j.height) + cards_from(j.sender_address, j.addresses, 0)
        + "</body></html>"@
}

/// The decimal digits of `n`, mirroring [`dec_str`].
fn u32_digits(n: u32) -> (v: Vec<char>)
    ensures
        v@ == dec_str(n as int),
    decreases n,
{
    if n < 10 {
        let c = char_of_u32(48 + n).unwrap();
        let mut v: Vec<char> = Vec::new();
        v.push(c);
        proof {
            assert(v@ =~= seq![dec_digit(n as int)]);
        }
        v
    } else {
        let mut v = u32_digits(n / 10);
        let c = char_of_u32(48 + n % 10).unwrap();
        let ghost pre = v@;
        v.push(c);
        proof {
            assert(v@ =~= pre + seq![dec_digit((n % 10) as int)]);
        }
        v
    }
}

/// The decimal text of `n`.
fn dec_string(n: u32) -> (s: String)
    ensures
        s@ == dec_str(n as int),
{
    let digits = u32_digits(n);
    chars_to_string(&digits)
}

/// Appends one field line.
fn push_line(out: &mut String, t: &String)
    ensures
        final(out)@ == old(out)@ + line(t@),
{
    out.append("<p>");
    out.append(t.as_str());
    out.append("</p>");
    proof {
        assert(out@ =~= old(out)@ + line(t@));
    }
}

/// Appends the line of an optional field, or nothing.
fn push_opt_line(out: &mut String, t: &Option<String>)
    ensures
        final(out)@ == old(out)@ + opt_line(opt_view(*t)),
{
    match t {
        Some(x) => push_line(out, x),
        None => {
            proof {
                assert(out@ =~= old(out)@ + opt_line(None));
            }
        },
    }
}

/// Appends the block of one address.
fn push_block(out: &mut String, a: &Address)
    ensures
        final(out)@ == old(out)@ + address_block(a@),
{
    push_opt_line(out, &a.name);
    push_line(out, &a.address_1);
    push_opt_line(out, &a.address_2);
    push_line(out, &a.city);
    push_opt_line(out, &a.state);
    push_line(out, &a.post_code);
    push_line(out, &a.country);
    proof {
        assert(out@ =~= old(out)@ + address_block(a@));
    }
}

/// Appends one card.
fn push_card(out: &mut String, sender: &Address, a: &Address)
    ensures
        final(out)@ == old(out)@ + card(sender@, a@),
{
    out.append("<div class=\"card\"><div class=\"sender\">");
    push_block(out, sender);
    out.append("</div><div class=\"recipient\">");
    push_block(out, a);
    out.append("</div></div>");
    proof {
        assert(out@ =~= old(out)@ + card(sender@, a@));
    }
}

/// Appends the cards of the recipients at or after `i`.
fn push_cards(out: &mut String, sender: &Address, aa: &Vec<Address>, i: usize)
    requires
        i <= aa@.len(),
    ensures
        final(out)@ == old(out)@ + cards_from(sender@, addrs_view(aa@), i as int),
    decreases aa@.len() - i,
{
    if i < aa.len() {
        push_card(out, sender, &aa[i]);
        push_cards(out, sender, aa, i + 1);
        proof {
            assert(addrs_view(aa@)[i as int] == aa@[i as int]@);
            assert(out@ =~= old(out)@ + cards_from(sender@, addrs_view(aa@), i as int));
        }
    } else {
        proof {
            assert(out@ =~= old(out)@ + cards_from(sender@, addrs_view(aa@), i as int));
        }
    }
}

/// Renders the whole document for a job, exactly as [`render_spec`] states.
pub fn render_html(job: &Job) -> (r: String)
    ensures
        r@ == render_spec(job@),
{
    let mut out = String::new();
    out.append("<!DOCTYPE html><html><head><meta charset=\"utf-8\"><style>@page { size: ");
    let w = dec_string(job.width);
    out.append(w.as_str());
    out.append("mm ");
    let h = dec_string(job.height);
    out.append(h.as_str());
    out.append(
        "mm; margin: 0; } .card { page-break-after: always; } p { margin: 0; }</style></head><body>",
    );
    proof {
        assert(out@ =~= html_head(job.width, job.height));
    }
    push_cards(&mut out, &job.sender_address, &job.addresses, 0);
    out.append("</body></html>");
    proof {
        assert(out@ =~= render_spec(job@));
    }
    out
}

} // verus!
