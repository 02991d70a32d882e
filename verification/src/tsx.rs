//! Automatic closing of JSX tags in TSX and JSX buffers.
//!
//! When an edit ends in `>` inside a JSX or TSX syntax layer and lands in
//! an opening element, the editor offers to append the matching closing
//! tag — unless the surrounding tree already balances it. The embedding
//! editor walks its syntax tree and hands this module plain descriptions
//! of the edited regions and of the opening and closing elements around
//! them; the decisions and the inserted text are computed here.

use vstd::prelude::*;
use vstd::string::*;
use crate::chars::{lower_seq, matches_ignore_ascii_case};

verus! {

/// The provider of this behavior.
pub struct TsxEditBehaviorProvider;

/// A pending tag completion: which edited range it belongs to, and the
/// byte range of the opening element it completes.
#[derive(Clone, Copy, Debug)]
pub struct TsxTagCompletionState {
    pub edit_index: usize,
    pub open_tag_start: usize,
    pub open_tag_end: usize,
}

/// One edited region, as read off the syntax tree.
#[derive(Debug)]
pub struct EditedRegion {
    /// The text of the edited range.
    pub text: String,
    /// The name of the language of the syntax layer at the edit.
    pub language_name: String,
    /// The opening element the edit lies in, if any.
    pub open_tag: Option<OpenTagInfo>,
}

/// The opening element around one edit.
#[derive(Clone, Copy, Debug)]
pub struct OpenTagInfo {
    /// Its byte range in the buffer.
    pub start: usize,
    pub end: usize,
    /// Whether the element's node carries a parse error.
    pub has_error: bool,
    /// Whether its text begins with `</`.
    pub starts_closing: bool,
}

/// One opening or closing element met while walking the tree around an
/// edit.
#[derive(Debug)]
pub struct TagToken {
    pub closing: bool,
    pub name: String,
}

/// Everything needed to decide one pending completion: where the closing
/// tag would go, the name of the tag, and the elements of the surrounding
/// tree.
#[derive(Debug)]
pub struct TagCompletionContext {
    pub anchor: usize,
    pub tag_name: String,
    pub tokens: Vec<TagToken>,
}

/// Whether an edited region calls for a tag completion: the edit ends in
/// `>`, the layer speaks JSX or TSX, and the edit lies in an opening
/// element that is not in truth a half-typed closing tag.
pub open spec fn region_qualifies(region: EditedRegion) -> bool {
    &&& region.text@.len() > 0
    &&& region.text@.last() == '>'
    &&& (lower_seq(region.language_name@) == "jsx"@ || lower_seq(region.language_name@)
        == "tsx"@)
    &&& region.open_tag matches Some(tag) && !(tag.has_error && tag.starts_closing)
}

/// The pending completions of a list of edited regions, in order.
pub open spec fn completion_states(regions: Seq<EditedRegion>) -> Seq<TsxTagCompletionState>
    decreases regions.len(),
{
    if regions.len() == 0 {
        Seq::empty()
    } else {
        completion_states(regions.drop_last()) + if region_qualifies(regions.last()) {
            seq![
                TsxTagCompletionState {
                    edit_index: (regions.len() - 1) as usize,
                    open_tag_start: regions.last().open_tag.unwrap().start,
                    open_tag_end: regions.last().open_tag.unwrap().end,
                },
            ]
        } else {
            Seq::<TsxTagCompletionState>::empty()
        }
    }
}

/// How many opening elements of this name the walked tree leaves unclosed.
pub open spec fn unclosed_count(tokens: Seq<TagToken>, name: Seq<char>) -> int
    decreases tokens.len(),
{
    if tokens.len() == 0 {
        0
    } else {
        unclosed_count(tokens.drop_last(), name) + (if tokens.last().name@ == name {
            if tokens.last().closing {
                -1
            } else {
                1
            }
        } else {
            0
        })
    }
}

/// The closing tags to insert, one per context whose tree leaves the tag
/// unclosed: at the context's anchor, the text `</name>`.
pub open spec fn auto_edits(contexts: Seq<TagCompletionContext>) -> Seq<(usize, Seq<char>)>
    decreases contexts.len(),
{
    if contexts.len() == 0 {
        Seq::empty()
    } else {
        auto_edits(contexts.drop_last()) + if unclosed_count(
            contexts.last().tokens@,
            contexts.last().tag_name@,
        ) > 0 {
            seq![
                (contexts.last().anchor, "</"@ + contexts.last().tag_name@ + ">"@),
            ]
        } else {
            Seq::<(usize, Seq<char>)>::empty()
        }
    }
}

impl TsxEditBehaviorProvider {
    /// Decides which edited regions call for a tag completion. Yields
    /// nothing when none does.
    pub fn should_auto_edit(&self, regions: &Vec<EditedRegion>) -> (r: Option<
        Vec<TsxTagCompletionState>,
    >)
        ensures
            completion_states(regions@).len() == 0 ==> r is None,
            completion_states(regions@).len() > 0 ==> (r matches Some(states) && states@
                == completion_states(regions@)),
    {
        let mut states: Vec<TsxTagCompletionState> = Vec::new();
        let mut i: usize = 0;
        proof {
            assert(regions@.take(0) =~= Seq::<EditedRegion>::empty());
        }
        while i < regions.len()
            invariant
                i <= regions@.len(),
                states@ == completion_states(regions@.take(i as int)),
            decreases regions@.len() - i,
        {
            let region = &regions[i];
            let ends_in_gt = region_ends_in_gt(region);
            let language_fits = matches_ignore_ascii_case(region.language_name.as_str(), "jsx")
                || matches_ignore_ascii_case(region.language_name.as_str(), "tsx");
            match region.open_tag {
                Some(tag) => {
                    if ends_in_gt && language_fits && !(tag.has_error && tag.starts_closing) {
                        states.push(
                            TsxTagCompletionState {
                                edit_index: i,
                                open_tag_start: tag.start,
                                open_tag_end: tag.end,
                            },
                        );
                    }
                },
                None => {},
            }
            proof {
                assert(regions@.take(i as int + 1).drop_last() =~= regions@.take(i as int));
                assert(regions@.take(i as int + 1).last() == regions@[i as int]);
            }
            i = i + 1;
        }
        proof {
            assert(regions@.take(regions@.len() as int) =~= regions@);
        }
        if states.len() == 0 {
            None
        } else {
            Some(states)
        }
    }

    /// Builds the closing-tag insertions for the surviving completions:
    /// one edit per context whose surrounding tree leaves its tag
    /// unclosed.
    pub fn auto_edit(&self, contexts: &Vec<TagCompletionContext>) -> (r: Vec<(usize, String)>)
        ensures
            r@.map_values(|e: (usize, String)| (e.0, e.1@)) == auto_edits(contexts@),
    {
        let mut edits: Vec<(usize, String)> = Vec::new();
        let mut i: usize = 0;
        proof {
            assert(contexts@.take(0) =~= Seq::<TagCompletionContext>::empty());
            assert(edits@.map_values(|e: (usize, String)| (e.0, e.1@)) =~= auto_edits(
                contexts@.take(0),
            ));
        }
        while i < contexts.len()
            invariant
                i <= contexts@.len(),
                edits@.map_values(|e: (usize, String)| (e.0, e.1@)) == auto_edits(
                    contexts@.take(i as int),
                ),
            decreases contexts@.len() - i,
        {
            let context = &contexts[i];
            if should_close_tag(&context.tokens, &context.tag_name) {
                let text = closing_tag_text(&context.tag_name);
                edits.push((context.anchor, text));
            }
            proof {
                assert(contexts@.take(i as int + 1).drop_last() =~= contexts@.take(i as int));
                assert(contexts@.take(i as int + 1).last() == contexts@[i as int]);
                assert(edits@.map_values(|e: (usize, String)| (e.0, e.1@)) =~= auto_edits(
                    contexts@.take(i as int + 1),
                ));
            }
            i = i + 1;
        }
        proof {
            assert(contexts@.take(contexts@.len() as int) =~= contexts@);
        }
        edits
    }
}

/// Whether the edited text ends in `>`.
fn region_ends_in_gt(region: &EditedRegion) -> (r: bool)
    ensures
        r == (region.text@.len() > 0 && region.text@.last() == '>'),
{
    let n = region.text.as_str().unicode_len();
    if n == 0 {
        return false;
    }
    region.text.as_str().get_char(n - 1) == '>'
}

/// Whether the walked tree leaves more openings of this tag than closings.
pub fn should_close_tag(tokens: &Vec<TagToken>, name: &String) -> (r: bool)
    ensures
        r == (unclosed_count(tokens@, name@) > 0),
{
    let mut count: i128 = 0;
    let mut i: usize = 0;
    proof {
        assert(tokens@.take(0) =~= Seq::<TagToken>::empty());
    }
    while i < tokens.len()
        invariant
            i <= tokens@.len(),
            count == unclosed_count(tokens@.take(i as int), name@),
            -(i as int) <= count <= i as int,
        decreases tokens@.len() - i,
    {
        let token = &tokens[i];
        if token.name.eq(name) {
            if token.closing {
                count = count - 1;
            } else {
                count = count + 1;
            }
        }
        proof {
            assert(tokens@.take(i as int + 1).drop_last() =~= tokens@.take(i as int));
            assert(tokens@.take(i as int + 1).last() == tokens@[i as int]);
        }
        i = i + 1;
    }
    proof {
        assert(tokens@.take(tokens@.len() as int) =~= tokens@);
    }
    count > 0
}

/// The closing tag for a name: `</name>`.
pub fn closing_tag_text(name: &String) -> (r: String)
    ensures
        r@ == "</"@ + name@ + ">"@,
{
    let mut r = String::from_str("</");
    r.append(name.as_str());
    r.append(">");
    r
}

} // verus!
