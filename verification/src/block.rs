//! The block page's view model and its rendering.
//!
//! [`BlockHtml`] is built once per request from a block, its height, the
//! chain's best height and the inscriptions found in the block. Its derived
//! fields and the exact text of the rendered page are pinned down by
//! contracts over [`BlockHtml::page_seq`].

use vstd::prelude::*;
use crate::digest::sha256d_of;
use crate::hex::{is_hex_digit, rev_hex_seq};
use crate::num::{dec_seq, fmt_u64};
use crate::target::target_bytes;
use crate::timestamp::timestamp_seq;
use crate::types::{block_hash, header_bytes, Block, BlockHash, Height, InscriptionId, Txid};

verus! {

/// One navigation control: an active link to a height, or inactive text.
#[derive(Clone, Copy, PartialEq, Eq, Structural, Debug)]
pub enum NavLink {
    Active(Height),
    Inactive,
}

/// `"<count> <noun>"`, with an `s` appended unless the count is exactly 1.
pub open spec fn tally_seq(noun: Seq<char>, n: int) -> Seq<char> {
    dec_seq(n) + " "@ + noun + if n == 1 {
        Seq::<char>::empty()
    } else {
        "s"@
    }
}

/// The display form of an inscription id: the transaction's hex digits,
/// `i`, then the index in decimal.
pub open spec fn inscription_id_seq(id: InscriptionId) -> Seq<char> {
    rev_hex_seq(id.txid.0@) + "i"@ + dec_seq(id.index as int)
}

/// A navigation control's text: an anchor to the target height when active,
/// the bare name when inactive.
pub open spec fn nav_seq(link: NavLink, name: Seq<char>) -> Seq<char> {
    match link {
        NavLink::Inactive => name,
        NavLink::Active(h) => "<a class="@ + name + " href=/block/"@ + dec_seq(h.0 as int) + ">"@
            + name + "</a>"@,
    }
}

/// One thumbnail row: a link to the inscription's page around a preview of
/// it, both addressed by the inscription's id.
pub open spec fn thumbnail_seq(id: InscriptionId) -> Seq<char> {
    "  <a href=/inscription/"@ + inscription_id_seq(id)
        + "><iframe sandbox=allow-scripts loading=lazy src=/preview/"@ + inscription_id_seq(id)
        + "></iframe></a>\n"@
}

/// The thumbnail rows of all inscriptions, in input order.
pub open spec fn thumbnails_seq(ids: Seq<InscriptionId>) -> Seq<char>
    decreases ids.len(),
{
    if ids.len() == 0 {
        Seq::empty()
    } else {
        thumbnails_seq(ids.drop_last()) + thumbnail_seq(ids.last())
    }
}

/// The inscription section: absent when the list is empty, else a heading
/// tallying the inscriptions and one thumbnail row each.
pub open spec fn inscriptions_section_seq(ids: Seq<InscriptionId>) -> Seq<char> {
    if ids.len() == 0 {
        Seq::empty()
    } else {
        "<h2>"@ + tally_seq("Inscription"@, ids.len() as int) + "</h2>\n<div class=thumbnails>\n"@
            + thumbnails_seq(ids) + "</div>\n"@
    }
}

/// One transaction row: the transaction's id as both link text and target.
pub open spec fn tx_entry_seq(t: Txid) -> Seq<char> {
    "  <li><a href=/tx/"@ + rev_hex_seq(t.0@) + ">"@ + rev_hex_seq(t.0@) + "</a></li>\n"@
}

/// The transaction rows of the whole block, in block order.
pub open spec fn tx_rows_seq(ts: Seq<Txid>) -> Seq<char>
    decreases ts.len(),
{
    if ts.len() == 0 {
        Seq::empty()
    } else {
        tx_rows_seq(ts.drop_last()) + tx_entry_seq(ts.last())
    }
}

/// The transaction section: a heading tallying the transactions (possibly
/// zero) and one row per transaction.
pub open spec fn tx_section_seq(ts: Seq<Txid>) -> Seq<char> {
    "<h2>"@ + tally_seq("Transaction"@, ts.len() as int) + "</h2>\n<ul class=monospace>\n"@
        + tx_rows_seq(ts) + "</ul>\n"@
}

/// The concatenation of a sequence of rows, in order.
pub open spec fn concat_seqs(rows: Seq<Seq<char>>) -> Seq<char>
    decreases rows.len(),
{
    if rows.len() == 0 {
        Seq::empty()
    } else {
        concat_seqs(rows.drop_last()) + rows.last()
    }
}

/// The derived, renderable model of one block page.
pub struct BlockHtml {
    pub hash: BlockHash,
    pub target: BlockHash,
    pub best_height: Height,
    pub block: Block,
    pub height: Height,
    pub inscriptions: Vec<InscriptionId>,
}

impl BlockHtml {
    /// The view's invariant: components well formed, `hash` the content
    /// hash of the block's header, `target` the expansion of its bits.
    pub open spec fn wf(&self) -> bool {
        &&& self.block.wf()
        &&& forall|i: int|
            0 <= i < self.inscriptions@.len() ==> (#[trigger] self.inscriptions@[i]).wf()
        &&& self.hash.wf()
        &&& self.target.wf()
        &&& self.hash.0@ == sha256d_of(header_bytes(self.block.header))
        &&& self.target.0@ == target_bytes(self.block.header.bits)
    }

    /// Builds the view: derives `hash` and `target` from the block's header
    /// and keeps the remaining inputs as given. Total: it cannot fail.
    pub fn new(block: Block, height: Height, best_height: Height, inscriptions: Vec<InscriptionId>) -> (r: Self)
        requires
            block.wf(),
            forall|i: int| 0 <= i < inscriptions@.len() ==> (#[trigger] inscriptions@[i]).wf(),
        ensures
            r.wf(),
            r.hash.0@ == sha256d_of(header_bytes(block.header)),
            r.target.0@ == target_bytes(block.header.bits),
            r.block == block,
            r.height == height,
            r.best_height == best_height,
            r.inscriptions == inscriptions,
    {
        let hash = block_hash(&block.header);
        let target = BlockHash(crate::target::expand_target(block.header.bits));
        BlockHtml { hash, target, best_height, block, height, inscriptions }
    }

    /// The page title: `"Block "` followed by the height in decimal.
    pub open spec fn title_seq(&self) -> Seq<char> {
        "Block "@ + dec_seq(self.height.0 as int)
    }

    /// The title string, exactly `"Block <height>"` for every height.
    pub fn title(&self) -> (r: String)
        ensures
            r@ == self.title_seq(),
            r@ == "Block "@ + dec_seq(self.height.0 as int),
    {
        let mut r = String::from_str("Block ");
        r.append(fmt_u64(self.height.0 as u64).as_str());
        r
    }

    /// The `prev` control: active toward `height - 1` above genesis,
    /// inactive at genesis.
    pub open spec fn prev_nav_spec(&self) -> NavLink {
        if self.height.0 > 0 {
            NavLink::Active(Height((self.height.0 - 1) as u32))
        } else {
            NavLink::Inactive
        }
    }

    /// The `next` control: active toward `height + 1` strictly below the
    /// best height, inactive at the chain tip.
    pub open spec fn next_nav_spec(&self) -> NavLink {
        if self.height.0 < self.best_height.0 {
            NavLink::Active(Height((self.height.0 + 1) as u32))
        } else {
            NavLink::Inactive
        }
    }

    pub fn prev_nav(&self) -> (r: NavLink)
        ensures
            r == self.prev_nav_spec(),
            self.height.0 > 0 ==> r == NavLink::Active(Height((self.height.0 - 1) as u32)),
            self.height.0 == 0 ==> r == NavLink::Inactive,
    {
        if self.height.0 > 0 {
            NavLink::Active(Height(self.height.0 - 1))
        } else {
            NavLink::Inactive
        }
    }

    pub fn next_nav(&self) -> (r: NavLink)
        ensures
            r == self.next_nav_spec(),
            self.height.0 < self.best_height.0 ==> r == NavLink::Active(
                Height((self.height.0 + 1) as u32),
            ),
            self.height.0 >= self.best_height.0 ==> r == NavLink::Inactive,
    {
        if self.height.0 < self.best_height.0 {
            NavLink::Active(Height(self.height.0 + 1))
        } else {
            NavLink::Inactive
        }
    }

    /// The block's hash for display: two hex digits per byte, so exactly 64
    /// hex digits for a well-formed view.
    pub fn hash_hex(&self) -> (r: String)
        ensures
            r@ == rev_hex_seq(self.hash.0@),
            r@.len() == 2 * self.hash.0@.len(),
            forall|i: int| 0 <= i < r@.len() ==> is_hex_digit(#[trigger] r@[i]),
    {
        self.hash.hex()
    }

    /// The expanded target for display: two hex digits per byte, so exactly
    /// 64 hex digits for a well-formed view.
    pub fn target_hex(&self) -> (r: String)
        ensures
            r@ == rev_hex_seq(self.target.0@),
            r@.len() == 2 * self.target.0@.len(),
            forall|i: int| 0 <= i < r@.len() ==> is_hex_digit(#[trigger] r@[i]),
    {
        self.target.hex()
    }

    /// The page's text up to the sections: heading, definition list of the
    /// five display fields in order, and the two navigation controls.
    pub open spec fn page_head_seq(&self) -> Seq<char> {
        "<h1>"@ + self.title_seq() + "</h1>\n<dl>\n  <dt>hash</dt><dd class=monospace>"@
            + rev_hex_seq(self.hash.0@) + "</dd>\n  <dt>target</dt><dd class=monospace>"@
            + rev_hex_seq(self.target.0@) + "</dd>\n  <dt>timestamp</dt><dd><time>"@
            + timestamp_seq(self.block.header.time as int) + "</time></dd>\n  <dt>size</dt><dd>"@
            + dec_seq(self.block.size as int) + "</dd>\n  <dt>weight</dt><dd>"@
            + dec_seq(self.block.weight as int) + "</dd>\n</dl>\n<div class=center>\n"@
            + nav_seq(self.prev_nav_spec(), "prev"@) + "\n"@
            + nav_seq(self.next_nav_spec(), "next"@) + "\n</div>\n"@
    }

    /// The whole page's text.
    pub open spec fn page_seq(&self) -> Seq<char> {
        self.page_head_seq() + inscriptions_section_seq(self.inscriptions@) + tx_section_seq(
            self.block.txdata@,
        )
    }

    /// Renders the page. Total: a block with no transactions or no
    /// inscriptions still renders, with a zero tally or a missing section.
    pub fn html(&self) -> (r: String)
        ensures
            r@ == self.page_seq(),
    {
        let mut r = String::from_str("<h1>");
        r.append(self.title().as_str());
        r.append("</h1>\n<dl>\n  <dt>hash</dt><dd class=monospace>");
        r.append(self.hash.hex().as_str());
        r.append("</dd>\n  <dt>target</dt><dd class=monospace>");
        r.append(self.target.hex().as_str());
        r.append("</dd>\n  <dt>timestamp</dt><dd><time>");
        r.append(crate::timestamp::fmt_timestamp(self.block.header.time).as_str());
        r.append("</time></dd>\n  <dt>size</dt><dd>");
        r.append(fmt_u64(self.block.size).as_str());
        r.append("</dd>\n  <dt>weight</dt><dd>");
        r.append(fmt_u64(self.block.weight).as_str());
        r.append("</dd>\n</dl>\n<div class=center>\n");
        r.append(nav_html(&self.prev_nav(), "prev").as_str());
        r.append("\n");
        r.append(nav_html(&self.next_nav(), "next").as_str());
        r.append("\n</div>\n");
        r.append(inscriptions_html(&self.inscriptions).as_str());
        r.append(tx_section_html(&self.block.txdata).as_str());
        proof {
            assert(r@ =~= self.page_seq());
        }
        r
    }
}

/// Renders one navigation control.
pub fn nav_html(link: &NavLink, name: &str) -> (r: String)
    ensures
        r@ == nav_seq(*link, name@),
{
    match link {
        NavLink::Inactive => name.to_owned(),
        NavLink::Active(h) => {
            let mut r = String::from_str("<a class=");
            r.append(name);
            r.append(" href=/block/");
            r.append(fmt_u64(h.0 as u64).as_str());
            r.append(">");
            r.append(name);
            r.append("</a>");
            proof {
                assert(r@ =~= nav_seq(*link, name@));
            }
            r
        },
    }
}

/// Renders `"<count> <noun>"` with singular/plural agreement.
pub fn tally(noun: &str, n: u64) -> (r: String)
    ensures
        r@ == tally_seq(noun@, n as int),
{
    let mut r = fmt_u64(n);
    r.append(" ");
    r.append(noun);
    if n != 1 {
        r.append("s");
    }
    proof {
        assert(r@ =~= tally_seq(noun@, n as int));
    }
    r
}

/// Renders an inscription id: txid hex digits, `i`, index.
pub fn inscription_id_str(id: &InscriptionId) -> (r: String)
    ensures
        r@ == inscription_id_seq(*id),
{
    let mut r = crate::hex::fmt_hex_rev(&id.txid.0);
    r.append("i");
    r.append(fmt_u64(id.index as u64).as_str());
    proof {
        assert(r@ =~= inscription_id_seq(*id));
    }
    r
}

/// Renders one thumbnail row.
fn thumbnail_html(id: &InscriptionId) -> (r: String)
    ensures
        r@ == thumbnail_seq(*id),
{
    let ids = inscription_id_str(id);
    let mut r = String::from_str("  <a href=/inscription/");
    r.append(ids.as_str());
    r.append("><iframe sandbox=allow-scripts loading=lazy src=/preview/");
    r.append(ids.as_str());
    r.append("></iframe></a>\n");
    proof {
        assert(r@ =~= thumbnail_seq(*id));
    }
    r
}

/// Renders the inscription section; the empty string when there are no
/// inscriptions.
pub fn inscriptions_html(ids: &Vec<InscriptionId>) -> (r: String)
    ensures
        r@ == inscriptions_section_seq(ids@),
{
    if ids.len() == 0 {
        let r = String::new();
        proof {
            assert(r@ =~= inscriptions_section_seq(ids@));
        }
        return r;
    }
    let mut r = String::from_str("<h2>");
    r.append(tally("Inscription", ids.len() as u64).as_str());
    r.append("</h2>\n<div class=thumbnails>\n");
    let ghost head: Seq<char> = r@;
    let mut i: usize = 0;
    while i < ids.len()
        invariant
            0 <= i <= ids@.len(),
            r@ =~= head + thumbnails_seq(ids@.take(i as int)),
        decreases ids@.len() - i,
    {
        r.append(thumbnail_html(&ids[i]).as_str());
        proof {
            let pre = ids@.take((i + 1) as int);
            assert(pre.drop_last() =~= ids@.take(i as int));
            assert(pre.last() == ids@[i as int]);
            assert(r@ =~= head + thumbnails_seq(pre));
        }
        i = i + 1;
    }
    r.append("</div>\n");
    proof {
        assert(ids@.take(ids@.len() as int) =~= ids@);
        assert(r@ =~= inscriptions_section_seq(ids@));
    }
    r
}

/// Renders the transaction section, a zero tally included.
pub fn tx_section_html(ts: &Vec<Txid>) -> (r: String)
    ensures
        r@ == tx_section_seq(ts@),
{
    let mut r = String::from_str("<h2>");
    r.append(tally("Transaction", ts.len() as u64).as_str());
    r.append("</h2>\n<ul class=monospace>\n");
    let ghost head: Seq<char> = r@;
    let mut i: usize = 0;
    while i < ts.len()
        invariant
            0 <= i <= ts@.len(),
            r@ =~= head + tx_rows_seq(ts@.take(i as int)),
        decreases ts@.len() - i,
    {
        let row = tx_entry_html(&ts[i]);
        r.append(row.as_str());
        proof {
            let pre = ts@.take((i + 1) as int);
            assert(pre.drop_last() =~= ts@.take(i as int));
            assert(pre.last() == ts@[i as int]);
            assert(r@ =~= head + tx_rows_seq(pre));
        }
        i = i + 1;
    }
    r.append("</ul>\n");
    proof {
        assert(ts@.take(ts@.len() as int) =~= ts@);
        assert(r@ =~= tx_section_seq(ts@));
    }
    r
}

/// Renders one transaction row.
fn tx_entry_html(t: &Txid) -> (r: String)
    ensures
        r@ == tx_entry_seq(*t),
{
    let hexs = t.hex();
    let mut r = String::from_str("  <li><a href=/tx/");
    r.append(hexs.as_str());
    r.append(">");
    r.append(hexs.as_str());
    r.append("</a></li>\n");
    proof {
        assert(r@ =~= tx_entry_seq(*t));
    }
    r
}

/// The transaction rows are the concatenation of one row per transaction,
/// in block order.
pub proof fn lemma_tx_rows_concat(ts: Seq<Txid>)
    ensures
        tx_rows_seq(ts) == concat_seqs(ts.map_values(|t: Txid| tx_entry_seq(t))),
    decreases ts.len(),
{
    let rows = ts.map_values(|t: Txid| tx_entry_seq(t));
    if ts.len() == 0 {
        assert(tx_rows_seq(ts) =~= concat_seqs(rows));
    } else {
        lemma_tx_rows_concat(ts.drop_last());
        assert(ts.drop_last().map_values(|t: Txid| tx_entry_seq(t)) =~= rows.drop_last());
        assert(rows.last() == tx_entry_seq(ts.last()));
        assert(tx_rows_seq(ts) =~= concat_seqs(rows));
    }
}

/// The thumbnail rows are the concatenation of one row per inscription, in
/// input order.
pub proof fn lemma_thumbnails_concat(ids: Seq<InscriptionId>)
    ensures
        thumbnails_seq(ids) == concat_seqs(ids.map_values(|id: InscriptionId| thumbnail_seq(id))),
    decreases ids.len(),
{
    let rows = ids.map_values(|id: InscriptionId| thumbnail_seq(id));
    if ids.len() == 0 {
        assert(thumbnails_seq(ids) =~= concat_seqs(rows));
    } else {
        lemma_thumbnails_concat(ids.drop_last());
        assert(ids.drop_last().map_values(|id: InscriptionId| thumbnail_seq(id)) =~= rows.drop_last());
        assert(rows.last() == thumbnail_seq(ids.last()));
        assert(thumbnails_seq(ids) =~= concat_seqs(rows));
    }
}

/// The transaction section always holds a heading whose tally is the
/// block's transaction count — zero included — and exactly one row per
/// transaction, in block order.
pub proof fn lemma_transaction_section(ts: Seq<Txid>)
    ensures
        tx_section_seq(ts) == "<h2>"@ + tally_seq("Transaction"@, ts.len() as int)
            + "</h2>\n<ul class=monospace>\n"@ + concat_seqs(
            ts.map_values(|t: Txid| tx_entry_seq(t)),
        ) + "</ul>\n"@,
        ts.map_values(|t: Txid| tx_entry_seq(t)).len() == ts.len(),
{
    lemma_tx_rows_concat(ts);
}

/// Every page is its head followed by the two sections: the inscription
/// section stands in the page exactly when the inscription list is
/// non-empty, and the transaction section always stands in it, a zero
/// tally included.
pub proof fn lemma_page_sections(v: BlockHtml)
    ensures
        v.page_seq() == v.page_head_seq() + inscriptions_section_seq(v.inscriptions@)
            + tx_section_seq(v.block.txdata@),
        v.inscriptions@.len() == 0 ==> v.page_seq() == v.page_head_seq() + tx_section_seq(
            v.block.txdata@,
        ),
{
    if v.inscriptions@.len() == 0 {
        assert(v.page_head_seq() + inscriptions_section_seq(v.inscriptions@) =~= v.page_head_seq());
    }
}

/// The inscription section is present exactly when the inscription list is
/// non-empty; its heading's tally is the list's length and it holds one
/// thumbnail row per inscription, in input order.
pub proof fn lemma_inscription_section(ids: Seq<InscriptionId>)
    ensures
        ids.len() == 0 ==> inscriptions_section_seq(ids) == Seq::<char>::empty(),
        ids.len() > 0 ==> inscriptions_section_seq(ids) == "<h2>"@ + tally_seq(
            "Inscription"@,
            ids.len() as int,
        ) + "</h2>\n<div class=thumbnails>\n"@ + concat_seqs(
            ids.map_values(|id: InscriptionId| thumbnail_seq(id)),
        ) + "</div>\n"@,
        ids.len() > 0 ==> inscriptions_section_seq(ids).len() > 0,
        ids.map_values(|id: InscriptionId| thumbnail_seq(id)).len() == ids.len(),
{
    lemma_thumbnails_concat(ids);
    if ids.len() > 0 {
        reveal_strlit("<h2>");
        assert(inscriptions_section_seq(ids).len() > 0);
    }
}

} // verus!
