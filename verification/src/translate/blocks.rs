//! Text blocks: the `{"type": "text", "text": ..}` items of a content list.

use crate::json;
use crate::json::{Json, JsonView};
use crate::text;
use vstd::prelude::*;
use vstd::string::*;

verus! {

/// The text of a text block.
pub open spec fn block_text(v: JsonView) -> Option<Seq<char>> {
    if json::str_member(v, "type"@) == Some("text"@) {
        json::str_member(v, "text"@)
    } else {
        None
    }
}

/// The texts of the text blocks of a list, in order.
pub open spec fn block_texts(items: Seq<JsonView>) -> Seq<Seq<char>>
    decreases items.len(),
{
    if items.len() == 0 {
        Seq::empty()
    } else {
        let before = block_texts(items.drop_last());
        match block_text(items.last()) {
            Some(t) => before.push(t),
            None => before,
        }
    }
}

/// The text of a text block.
pub fn text_of_block<'a>(v: &'a Json) -> (r: Option<&'a str>)
    ensures
        text::opt_str(r) == block_text(v@),
{
    match v.get_str("type") {
        Some(kind) => if text::same(kind, "text") {
            v.get_str("text")
        } else {
            None
        },
        None => None,
    }
}

/// The texts of the text blocks of a list, in order.
pub fn texts_of_blocks(items: &Vec<Json>) -> (r: Vec<String>)
    ensures
        text::texts(r@) == block_texts(json::items_view(items@)),
{
    let mut r: Vec<String> = Vec::new();
    let mut i: usize = 0;
    let ghost model = json::items_view(items@);
    assert(model.take(0) =~= Seq::empty());
    assert(text::texts(r@) =~= Seq::empty());
    while i < items.len()
        invariant
            i <= items@.len(),
            model == json::items_view(items@),
            text::texts(r@) == block_texts(model.take(i as int)),
        decreases items.len() - i,
    {
        let ghost before = text::texts(r@);
        proof {
            assert(model.take(i + 1).drop_last() =~= model.take(i as int));
            assert(model.take(i + 1).last() == items@[i as int]@);
        }
        match text_of_block(&items[i]) {
            Some(t) => {
                let t = t.to_owned();
                r.push(t);
                proof {
                    assert(text::texts(r@) =~= before.push(t@));
                }
            },
            None => {},
        }
        i += 1;
    }
    assert(model.take(items@.len() as int) =~= model);
    r
}

// ---------------------------------------------------------------------------
// Laws
// ---------------------------------------------------------------------------

/// Whether an item is a text block with a text.
pub open spec fn is_text(v: JsonView, t: Seq<char>) -> bool {
    &&& json::member(v, "type"@) == Some(JsonView::Str("text"@))
    &&& json::member(v, "text"@) == Some(JsonView::Str(t))
}

/// The texts of text blocks are those blocks' texts, all of them and in order.
pub proof fn texts_are_read_in_order(items: Seq<JsonView>, texts: Seq<Seq<char>>)
    requires
        items.len() == texts.len(),
        forall|k: int| 0 <= k < items.len() ==> is_text(#[trigger] items[k], texts[k]),
    ensures
        block_texts(items) == texts,
    decreases items.len(),
{
    if items.len() == 0 {
        assert(texts =~= Seq::empty());
    } else {
        let front = items.drop_last();
        assert forall|k: int| 0 <= k < front.len() implies is_text(
            #[trigger] front[k],
            texts.drop_last()[k],
        ) by {
            assert(front[k] == items[k]);
        }
        texts_are_read_in_order(front, texts.drop_last());
        assert(is_text(items[items.len() - 1], texts.last()));
        assert(texts.drop_last().push(texts.last()) =~= texts);
    }
}

/// Items that are no text blocks are passed over.
pub proof fn other_items_have_no_text(front: Seq<JsonView>, v: JsonView, rest: Seq<JsonView>)
    ensures
        json::member(v, "type"@) != Some(JsonView::Str("text"@)) ==> block_texts(
            front + seq![v] + rest,
        ) == block_texts(front + rest),
        block_texts(front + rest) == block_texts(front) + block_texts(rest),
    decreases rest.len(),
{
    let all = front + seq![v] + rest;
    if rest.len() == 0 {
        assert(all.drop_last() =~= front);
        assert(front + rest =~= front);
        assert(block_texts(front) + block_texts(rest) =~= block_texts(front));
    } else {
        other_items_have_no_text(front, v, rest.drop_last());
        assert(all.drop_last() =~= front + seq![v] + rest.drop_last());
        assert((front + rest).drop_last() =~= front + rest.drop_last());
        assert(block_texts(front + rest) =~= block_texts(front) + block_texts(rest));
    }
}

} // verus!
