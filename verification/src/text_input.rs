//! A grapheme-aware editable text buffer. The cursor counts user-perceived
//! characters (grapheme clusters), never code units, so editing multi-byte
//! or combined characters moves it one visual step at a time.

use vstd::prelude::*;
use vstd::seq_lib::*;
use vstd::string::*;
use crate::util::push_char;
use unicode_segmentation::UnicodeSegmentation;

verus! {

/// The grapheme clusters of a character sequence, in order.
pub uninterp spec fn graphemes_of(s: Seq<char>) -> Seq<Seq<char>>;

/// Relies on unicode_segmentation's `UnicodeSegmentation::graphemes` in
/// extended mode: it yields the grapheme clusters of the input as substrings,
/// split at UAX#29 boundaries, so the clusters are non-empty and concatenate
/// back to the input.
#[verifier::external_body]
fn split_graphemes(s: &str) -> (r: Vec<String>)
    ensures
        r@.map_values(|g: String| g@) == graphemes_of(s@),
        r@.map_values(|g: String| g@).flatten() == s@,
        forall|i: int| 0 <= i < r@.len() ==> r@[i]@.len() > 0,
{
    UnicodeSegmentation::graphemes(s, true).map(|g| g.to_string()).collect()
}

/// An editable text field with a cursor measured in grapheme clusters.
#[derive(Debug)]
pub struct TextInput {
    pub text: String,
    pub cursor: usize,
    pub multiline: bool,
}

impl Default for TextInput {
    /// An empty single-line field with the cursor at the start.
    fn default() -> (r: TextInput)
        ensures
            r.text@ == Seq::<char>::empty(),
            r.cursor == 0,
            r.multiline == false,
            r.wf(),
    {
        TextInput { text: String::new(), cursor: 0, multiline: false }
    }
}

/// How a field changes when `c` is typed: `c` enters at the cursor, and the
/// cursor advances one step, clamped to the new end of the text.
pub open spec fn spec_inserted(pre: TextInput, post: TextInput, c: char) -> bool {
    let gs = graphemes_of(pre.text@);
    let k = pre.cursor as int;
    &&& post.text@ == gs.take(k).flatten() + seq![c] + gs.skip(k).flatten()
    &&& post.cursor == vstd::math::min(k + 1, graphemes_of(post.text@).len() as int)
    &&& post.multiline == pre.multiline
}

/// How a field changes on backspace: the cluster before the cursor leaves,
/// and the cursor steps back, clamped to the new end of the text.
pub open spec fn spec_deleted(pre: TextInput, post: TextInput) -> bool {
    let gs = graphemes_of(pre.text@);
    let k = pre.cursor as int;
    &&& (pre.cursor == 0 ==> post == pre)
    &&& (pre.cursor > 0 ==> {
        &&& post.text@ == gs.take(k - 1).flatten() + gs.skip(k).flatten()
        &&& post.cursor == vstd::math::min(k - 1, graphemes_of(post.text@).len() as int)
        &&& post.multiline == pre.multiline
    })
}

/// How a field changes when the cursor moves one step left.
pub open spec fn spec_moved_left(pre: TextInput, post: TextInput) -> bool {
    &&& post.cursor == if pre.cursor > 0 {
        pre.cursor - 1
    } else {
        0int
    }
    &&& post.text == pre.text
    &&& post.multiline == pre.multiline
}

/// How a field changes when the cursor moves one step right.
pub open spec fn spec_moved_right(pre: TextInput, post: TextInput) -> bool {
    &&& (pre.cursor < graphemes_of(pre.text@).len() ==> post.cursor == pre.cursor + 1)
    &&& (pre.cursor >= graphemes_of(pre.text@).len() ==> post.cursor == pre.cursor)
    &&& post.text == pre.text
    &&& post.multiline == pre.multiline
}

impl TextInput {
    /// The cursor never passes the end of the text.
    pub open spec fn wf(self) -> bool {
        self.cursor <= graphemes_of(self.text@).len()
    }

    /// A field holding `text`, cursor at its end.
    pub fn new(text: String) -> (r: TextInput)
        ensures
            r.text@ == text@,
            r.cursor == graphemes_of(text@).len(),
            r.multiline == false,
            r.wf(),
    {
        let gs = split_graphemes(text.as_str());
        let cursor = gs.len();
        TextInput { text, cursor, multiline: false }
    }

    /// The same field, with line breaks allowed or not.
    pub fn multiline(self, multiline: bool) -> (r: Self)
        ensures
            r.text@ == self.text@,
            r.cursor == self.cursor,
            r.multiline == multiline,
    {
        TextInput { multiline, ..self }
    }

    /// Number of grapheme clusters in the text.
    pub fn grapheme_len(&self) -> (r: usize)
        ensures
            r == graphemes_of(self.text@).len(),
    {
        split_graphemes(self.text.as_str()).len()
    }

    /// Insert `c` at the cursor and advance the cursor one step, clamped to
    /// the new end of the text (an inserted combining character may join an
    /// existing cluster and shorten the text in grapheme terms).
    pub fn insert_char(&mut self, c: char)
        requires
            old(self).wf(),
        ensures
            spec_inserted(*old(self), *final(self), c),
            final(self).wf(),
    {
        let gs = split_graphemes(self.text.as_str());
        let ghost gsv = graphemes_of(self.text@);
        let k = self.cursor;
        let mut new_text = String::new();
        let mut i: usize = 0;
        while i < k
            invariant
                0 <= i <= k,
                k <= gs@.len(),
                gs@.map_values(|g: String| g@) == gsv,
                new_text@ == gsv.take(i as int).flatten(),
            decreases k - i,
        {
            new_text.append(gs[i].as_str());
            proof {
                broadcast use Seq::<_>::lemma_flatten_push;

                assert(gsv.take(i + 1) =~= gsv.take(i as int).push(gsv[i as int]));
            }
            i = i + 1;
        }
        push_char(&mut new_text, c);
        proof {
            broadcast use Seq::<_>::lemma_flatten_push;

            assert(gsv.subrange(k as int, k as int).flatten() =~= Seq::<char>::empty());
            assert(new_text@ =~= gsv.take(k as int).flatten() + seq![c] + gsv.subrange(
                k as int,
                k as int,
            ).flatten());
        }
        while i < gs.len()
            invariant
                k <= i <= gs@.len(),
                gs@.map_values(|g: String| g@) == gsv,
                new_text@ == gsv.take(k as int).flatten() + seq![c] + gsv.subrange(
                    k as int,
                    i as int,
                ).flatten(),
            decreases gs@.len() - i,
        {
            new_text.append(gs[i].as_str());
            proof {
                broadcast use Seq::<_>::lemma_flatten_push;

                assert(gsv.subrange(k as int, i + 1) =~= gsv.subrange(k as int, i as int).push(
                    gsv[i as int],
                ));
            }
            i = i + 1;
        }
        proof {
            assert(gsv.subrange(k as int, gsv.len() as int) =~= gsv.skip(k as int));
        }
        let new_count = split_graphemes(new_text.as_str()).len();
        self.text = new_text;
        self.cursor = if k < new_count {
            k + 1
        } else {
            new_count
        };
    }

    /// Remove the grapheme cluster just before the cursor and move the
    /// cursor one step back; a no-op when the cursor is at the start.
    pub fn delete_char(&mut self)
        requires
            old(self).wf(),
        ensures
            spec_deleted(*old(self), *final(self)),
            final(self).wf(),
    {
        if self.cursor == 0 {
            return;
        }
        let gs = split_graphemes(self.text.as_str());
        let ghost gsv = graphemes_of(self.text@);
        let k = self.cursor;
        let mut new_text = String::new();
        let mut i: usize = 0;
        while i < k - 1
            invariant
                0 < k <= gs@.len(),
                0 <= i <= k - 1,
                gs@.map_values(|g: String| g@) == gsv,
                new_text@ == gsv.take(i as int).flatten(),
            decreases k - i,
        {
            new_text.append(gs[i].as_str());
            proof {
                broadcast use Seq::<_>::lemma_flatten_push;

                assert(gsv.take(i + 1) =~= gsv.take(i as int).push(gsv[i as int]));
            }
            i = i + 1;
        }
        i = k;
        proof {
            assert(gsv.subrange(k as int, k as int).flatten() =~= Seq::<char>::empty());
            assert(new_text@ =~= gsv.take(k - 1).flatten() + gsv.subrange(
                k as int,
                k as int,
            ).flatten());
        }
        while i < gs.len()
            invariant
                0 < k <= i <= gs@.len(),
                gs@.map_values(|g: String| g@) == gsv,
                new_text@ == gsv.take(k - 1).flatten() + gsv.subrange(k as int, i as int).flatten(),
            decreases gs@.len() - i,
        {
            new_text.append(gs[i].as_str());
            proof {
                broadcast use Seq::<_>::lemma_flatten_push;

                assert(gsv.subrange(k as int, i + 1) =~= gsv.subrange(k as int, i as int).push(
                    gsv[i as int],
                ));
            }
            i = i + 1;
        }
        proof {
            assert(gsv.subrange(k as int, gsv.len() as int) =~= gsv.skip(k as int));
        }
        let new_count = split_graphemes(new_text.as_str()).len();
        self.text = new_text;
        self.cursor = if k - 1 < new_count {
            k - 1
        } else {
            new_count
        };
    }

    /// Move the cursor one step towards the start, stopping there.
    pub fn move_cursor_left(&mut self)
        ensures
            spec_moved_left(*old(self), *final(self)),
            old(self).wf() ==> final(self).wf(),
    {
        if self.cursor > 0 {
            self.cursor = self.cursor - 1;
        }
    }

    /// Move the cursor one step towards the end, stopping there.
    pub fn move_cursor_right(&mut self)
        ensures
            spec_moved_right(*old(self), *final(self)),
            old(self).wf() ==> final(self).wf(),
    {
        let len = self.grapheme_len();
        if self.cursor < len {
            self.cursor = self.cursor + 1;
        }
    }
}

} // verus!
