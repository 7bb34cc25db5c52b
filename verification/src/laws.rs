//! Laws of the renderer: every recipient's fields stand in the rendered
//! document verbatim, the cards keep input order, and reordering the
//! recipients only reorders the cards.

use vstd::prelude::*;

use crate::address::AddressV;
use crate::job::JobV;
use crate::render::{address_block, card, cards_from, html_head, line, render_spec};

verus! {

/// `needle` occurs in `hay` starting at `at`.
pub open spec fn occurs_at(hay: Seq<char>, needle: Seq<char>, at: int) -> bool {
    0 <= at && at + needle.len() <= hay.len() && hay.subrange(at, at + needle.len() as int)
        == needle
}

/// `hay` holds `needle` somewhere.
pub open spec fn contains_seq(hay: Seq<char>, needle: Seq<char>) -> bool {
    exists|k: int| occurs_at(hay, needle, k)
}

pub proof fn lemma_occurs_concat_left(x: Seq<char>, y: Seq<char>, n: Seq<char>, k: int)
    requires
        occurs_at(y, n, k),
    ensures
        occurs_at(x + y, n, x.len() + k),
{
    assert((x + y).subrange(x.len() + k, x.len() + k + n.len() as int) =~= y.subrange(
        k,
        k + n.len() as int,
    ));
}

pub proof fn lemma_occurs_concat_right(x: Seq<char>, y: Seq<char>, n: Seq<char>, k: int)
    requires
        occurs_at(x, n, k),
    ensures
        occurs_at(x + y, n, k),
{
    assert((x + y).subrange(k, k + n.len() as int) =~= x.subrange(k, k + n.len() as int));
}

pub proof fn lemma_contains_concat_left(x: Seq<char>, y: Seq<char>, n: Seq<char>)
    requires
        contains_seq(y, n),
    ensures
        contains_seq(x + y, n),
{
    let k = choose|k: int| occurs_at(y, n, k);
    lemma_occurs_concat_left(x, y, n, k);
}

pub proof fn lemma_contains_concat_right(x: Seq<char>, y: Seq<char>, n: Seq<char>)
    requires
        contains_seq(x, n),
    ensures
        contains_seq(x + y, n),
{
    let k = choose|k: int| occurs_at(x, n, k);
    lemma_occurs_concat_right(x, y, n, k);
}

/// A line holds its field verbatim.
pub proof fn lemma_line_contains(t: Seq<char>)
    ensures
        contains_seq(line(t), t),
{
    reveal_strlit("<p>");
    assert(line(t).subrange(3, 3 + t.len() as int) =~= t);
    assert(occurs_at(line(t), t, 3));
}

/// An address block holds the four required fields verbatim.
pub proof fn lemma_block_contains_fields(a: AddressV)
    ensures
        contains_seq(address_block(a), a.address_1),
        contains_seq(address_block(a), a.city),
        contains_seq(address_block(a), a.post_code),
        contains_seq(address_block(a), a.country),
{
    let o1 = crate::render::opt_line(a.name);
    let l1 = line(a.address_1);
    let o2 = crate::render::opt_line(a.address_2);
    let l2 = line(a.city);
    let o3 = crate::render::opt_line(a.state);
    let l3 = line(a.post_code);
    let l4 = line(a.country);
    lemma_line_contains(a.address_1);
    lemma_contains_concat_left(o1, l1, a.address_1);
    lemma_contains_concat_right(o1 + l1, o2, a.address_1);
    lemma_contains_concat_right(o1 + l1 + o2, l2, a.address_1);
    lemma_contains_concat_right(o1 + l1 + o2 + l2, o3, a.address_1);
    lemma_contains_concat_right(o1 + l1 + o2 + l2 + o3, l3, a.address_1);
    lemma_contains_concat_right(o1 + l1 + o2 + l2 + o3 + l3, l4, a.address_1);
    lemma_line_contains(a.city);
    lemma_contains_concat_left(o1 + l1 + o2, l2, a.city);
    lemma_contains_concat_right(o1 + l1 + o2 + l2, o3, a.city);
    lemma_contains_concat_right(o1 + l1 + o2 + l2 + o3, l3, a.city);
    lemma_contains_concat_right(o1 + l1 + o2 + l2 + o3 + l3, l4, a.city);
    lemma_line_contains(a.post_code);
    lemma_contains_concat_left(o1 + l1 + o2 + l2 + o3, l3, a.post_code);
    lemma_contains_concat_right(o1 + l1 + o2 + l2 + o3 + l3, l4, a.post_code);
    lemma_line_contains(a.country);
    lemma_contains_concat_left(o1 + l1 + o2 + l2 + o3 + l3, l4, a.country);
}

/// A card holds its recipient's four required fields verbatim.
pub proof fn lemma_card_contains_fields(sender: AddressV, a: AddressV)
    ensures
        contains_seq(card(sender, a), a.address_1),
        contains_seq(card(sender, a), a.city),
        contains_seq(card(sender, a), a.post_code),
        contains_seq(card(sender, a), a.country),
{
    let h1 = "<div class=\"card\"><div class=\"sender\">"@;
    let h2 = "</div><div class=\"recipient\">"@;
    let h3 = "</div></div>"@;
    let bs = address_block(sender);
    let ba = address_block(a);
    lemma_block_contains_fields(a);
    lemma_contains_concat_left(h1 + bs + h2, ba, a.address_1);
    lemma_contains_concat_right(h1 + bs + h2 + ba, h3, a.address_1);
    lemma_contains_concat_left(h1 + bs + h2, ba, a.city);
    lemma_contains_concat_right(h1 + bs + h2 + ba, h3, a.city);
    lemma_contains_concat_left(h1 + bs + h2, ba, a.post_code);
    lemma_contains_concat_right(h1 + bs + h2 + ba, h3, a.post_code);
    lemma_contains_concat_left(h1 + bs + h2, ba, a.country);
    lemma_contains_concat_right(h1 + bs + h2 + ba, h3, a.country);
}

/// Offset of card `i` within the run of cards.
pub open spec fn card_off(sender: AddressV, aa: Seq<AddressV>, i: int) -> int
    decreases i,
{
    if i <= 0 {
        0
    } else {
        card_off(sender, aa, i - 1) + card(sender, aa[i - 1]).len()
    }
}

pub proof fn lemma_card_len_pos(sender: AddressV, a: AddressV)
    ensures
        card(sender, a).len() > 0,
{
    reveal_strlit("<div class=\"card\"><div class=\"sender\">");
}

pub proof fn lemma_card_off_mono(sender: AddressV, aa: Seq<AddressV>, j: int, k: int)
    requires
        0 <= j <= k,
    ensures
        card_off(sender, aa, j) <= card_off(sender, aa, k),
    decreases k - j,
{
    if j < k {
        lemma_card_off_mono(sender, aa, j, k - 1);
    }
}

/// Cards keep input order: an earlier recipient's card stands earlier.
pub proof fn lemma_cards_in_order(sender: AddressV, aa: Seq<AddressV>, i1: int, i2: int)
    requires
        0 <= i1 < i2,
    ensures
        card_off(sender, aa, i1) < card_off(sender, aa, i2),
{
    lemma_card_len_pos(sender, aa[i1]);
    lemma_card_off_mono(sender, aa, i1 + 1, i2);
}

proof fn lemma_card_at_from(sender: AddressV, aa: Seq<AddressV>, j: int, i: int)
    requires
        0 <= j <= i < aa.len(),
    ensures
        occurs_at(
            cards_from(sender, aa, j),
            card(sender, aa[i]),
            card_off(sender, aa, i) - card_off(sender, aa, j),
        ),
    decreases i - j,
{
    let needle = card(sender, aa[i]);
    if j == i {
        let run = cards_from(sender, aa, j);
        assert(run.subrange(0, needle.len() as int) =~= needle);
        assert(occurs_at(run, needle, 0));
    } else {
        lemma_card_at_from(sender, aa, j + 1, i);
        lemma_occurs_concat_left(
            card(sender, aa[j]),
            cards_from(sender, aa, j + 1),
            needle,
            card_off(sender, aa, i) - card_off(sender, aa, j + 1),
        );
    }
}

/// Card `i` stands in the run of cards at its offset.
pub proof fn lemma_card_at(sender: AddressV, aa: Seq<AddressV>, i: int)
    requires
        0 <= i < aa.len(),
    ensures
        occurs_at(cards_from(sender, aa, 0), card(sender, aa[i]), card_off(sender, aa, i)),
{
    lemma_card_at_from(sender, aa, 0, i);
}

/// Law: the rendered document holds recipient `i`'s card at a fixed offset
/// (increasing in `i`, by [`lemma_cards_in_order`]), and that card holds the
/// recipient's required fields verbatim.
pub proof fn lemma_render_has_recipient_fields(j: JobV, i: int)
    requires
        0 <= i < j.addresses.len(),
    ensures
        occurs_at(
            render_spec(j),
            card(j.sender_address, j.addresses[i]),
            html_head(j.width, j.height).len() + card_off(j.sender_address, j.addresses, i),
        ),
        contains_seq(card(j.sender_address, j.addresses[i]), j.addresses[i].address_1),
        contains_seq(card(j.sender_address, j.addresses[i]), j.addresses[i].city),
        contains_seq(card(j.sender_address, j.addresses[i]), j.addresses[i].post_code),
        contains_seq(card(j.sender_address, j.addresses[i]), j.addresses[i].country),
{
    let head = html_head(j.width, j.height);
    let run = cards_from(j.sender_address, j.addresses, 0);
    let tail = "</body></html>"@;
    let needle = card(j.sender_address, j.addresses[i]);
    lemma_card_at(j.sender_address, j.addresses, i);
    lemma_occurs_concat_left(head, run, needle, card_off(j.sender_address, j.addresses, i));
    lemma_occurs_concat_right(
        head + run,
        tail,
        needle,
        head.len() + card_off(j.sender_address, j.addresses, i),
    );
    lemma_card_contains_fields(j.sender_address, j.addresses[i]);
}

/// Law: an absent optional field contributes nothing: the block is exactly
/// the required lines.
pub proof fn lemma_absent_optionals(a: AddressV)
    requires
        a.name is None,
        a.address_2 is None,
        a.state is None,
    ensures
        address_block(a) == line(a.address_1) + line(a.city) + line(a.post_code) + line(a.country),
{
    assert(address_block(a) =~= line(a.address_1) + line(a.city) + line(a.post_code) + line(
        a.country,
    ));
}

/// Law: reordering the recipients only reorders the cards: when `a2` is `a1`
/// reordered through the index map `f`, the card at slot `i` of the reordered
/// run is exactly recipient `f(i)`'s card, content unchanged.
pub proof fn lemma_render_reorder(
    sender: AddressV,
    a1: Seq<AddressV>,
    a2: Seq<AddressV>,
    f: spec_fn(int) -> int,
)
    requires
        a1.len() == a2.len(),
        forall|i: int| 0 <= i < a2.len() ==> 0 <= #[trigger] f(i) < a1.len() && a2[i] == a1[f(i)],
    ensures
        forall|i: int|
            0 <= i < a2.len() ==> occurs_at(
                cards_from(sender, a2, 0),
                card(sender, a1[f(i)]),
                #[trigger] card_off(sender, a2, i),
            ),
{
    assert forall|i: int| 0 <= i < a2.len() implies occurs_at(
        cards_from(sender, a2, 0),
        card(sender, a1[f(i)]),
        card_off(sender, a2, i),
    ) by {
        lemma_card_at(sender, a2, i);
    }
}

/// Law: over whole documents: when the recipients of `j2` are those of `j1`
/// reordered through the index map `f` (sender and page size unchanged), the
/// document of `j2` holds at slot `i`'s offset exactly recipient `f(i)`'s
/// card from `j1`, content unchanged.
pub proof fn lemma_render_reorder_documents(j1: JobV, j2: JobV, f: spec_fn(int) -> int)
    requires
        j1.sender_address == j2.sender_address,
        j1.addresses.len() == j2.addresses.len(),
        forall|i: int|
            0 <= i < j2.addresses.len() ==> 0 <= #[trigger] f(i) < j1.addresses.len()
                && j2.addresses[i] == j1.addresses[f(i)],
    ensures
        forall|i: int|
            0 <= i < j2.addresses.len() ==> occurs_at(
                render_spec(j2),
                card(j1.sender_address, j1.addresses[f(i)]),
                html_head(j2.width, j2.height).len() + #[trigger] card_off(
                    j2.sender_address,
                    j2.addresses,
                    i,
                ),
            ),
{
    assert forall|i: int| 0 <= i < j2.addresses.len() implies occurs_at(
        render_spec(j2),
        card(j1.sender_address, j1.addresses[f(i)]),
        html_head(j2.width, j2.height).len() + card_off(j2.sender_address, j2.addresses, i),
    ) by {
        lemma_render_has_recipient_fields(j2, i);
    }
}

/// Law: a rendered document is never empty.
pub proof fn lemma_render_nonempty(j: JobV)
    ensures
        render_spec(j).len() > 0,
{
    reveal_strlit("</body></html>");
}

} // verus!
