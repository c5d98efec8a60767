//! Asking the user for a decision.

use vstd::prelude::*;

use crate::text;
use crate::text_laws;
use crate::text::{blank, cat2};
use crate::tools::contract;
use crate::tools::contract::{
    invalid, Failure, FailureKind, ToolCallId, ToolDefinition, ToolError, ToolOutput, ToolResult,
    ToolStatus,
};

verus! {

/// The name of the tool.
pub const NAME: &'static str = "ask_user";

/// What the model is told of the tool.
pub const DESCRIPTION: &'static str = "Pause only when a meaningful product or implementation choice needs the user's preference. Present 2-4 concise options. Every option must include what it does, one advantage, and one disadvantage; mark at most one recommended option. Do not use this for permission to perform a tool action.";

/// The JSON schema of its arguments.
pub const SCHEMA: &'static str = "{\"type\":\"object\",\"required\":[\"title\",\"choices\"],\"properties\":{\"title\":{\"type\":\"string\",\"description\":\"Short question.\"},\"context\":{\"type\":\"string\",\"description\":\"One concise sentence explaining why a decision is needed.\"},\"choices\":{\"type\":\"array\",\"minItems\":2,\"maxItems\":4,\"items\":{\"type\":\"object\",\"required\":[\"label\",\"summary\",\"advantages\",\"disadvantages\"],\"properties\":{\"label\":{\"type\":\"string\"},\"summary\":{\"type\":\"string\"},\"advantages\":{\"type\":\"string\"},\"disadvantages\":{\"type\":\"string\"},\"recommended\":{\"type\":\"boolean\"}}}}}}";

/// Says what the tool does and takes.
pub fn definition() -> (r: ToolDefinition)
    ensures
        r.says(NAME@, DESCRIPTION@, SCHEMA@),
{
    ToolDefinition::new(NAME, DESCRIPTION, SCHEMA)
}

/// One alternative of a decision.
#[derive(Debug, PartialEq, Eq)]
pub struct UserChoice {
    pub label: String,
    pub summary: String,
    pub advantages: String,
    pub disadvantages: String,
    pub recommended: bool,
}

/// A decision for which the user's preference is needed.
#[derive(Debug, PartialEq, Eq)]
pub struct UserQuestion {
    pub title: String,
    pub context: String,
    pub choices: Vec<UserChoice>,
}

/// Whether a choice says everything that it must say.
pub open spec fn is_explained(c: UserChoice) -> bool {
    &&& !text::is_blank(c.label@)
    &&& !text::is_blank(c.summary@)
    &&& !text::is_blank(c.advantages@)
    &&& !text::is_blank(c.disadvantages@)
}

/// How many choices are recommended.
pub open spec fn recommended(list: Seq<UserChoice>) -> nat
    decreases list.len(),
{
    if list.len() == 0 {
        0
    } else {
        recommended(list.drop_last()) + (if list.last().recommended {
            1nat
        } else {
            0nat
        })
    }
}

/// Whether every choice says everything that it must say.
pub open spec fn all_explained(list: Seq<UserChoice>) -> bool {
    forall|i: int| 0 <= i < list.len() ==> is_explained(#[trigger] list[i])
}

/// What is wrong with a question, if anything.
pub open spec fn question_fault(q: UserQuestion) -> Option<Seq<char>> {
    if text::is_blank(q.title@) || !(2 <= q.choices@.len() <= 4) {
        Some("title is required and choices must contain 2 to 4 entries"@)
    } else if recommended(q.choices@) > 1 || !all_explained(q.choices@) {
        Some(
            "each choice needs concise label, summary, advantages and disadvantages; mark at most one recommended choice"@,
        )
    } else {
        None
    }
}

/// Tells whether a choice says everything that it must say.
fn check_choice(c: &UserChoice) -> (r: bool)
    ensures
        r == is_explained(*c),
{
    !blank(c.label.as_str()) && !blank(c.summary.as_str()) && !blank(c.advantages.as_str())
        && !blank(c.disadvantages.as_str())
}

/// Accepts a question: it has a title, two to four choices that explain themselves, and at most one
/// that is recommended.
pub fn check_question(q: &UserQuestion) -> (r: Result<(), ToolError>)
    ensures
        match question_fault(*q) {
            Some(message) => r matches Err(e) && e@ == contract::wrong(message),
            None => r is Ok,
        },
{
    if blank(q.title.as_str()) || q.choices.len() < 2 || q.choices.len() > 4 {
        return Err(invalid("title is required and choices must contain 2 to 4 entries"));
    }
    let ghost list = q.choices@;
    let mut count: usize = 0;
    let mut explained: bool = true;
    let mut i: usize = 0;
    assert(list.take(0) =~= Seq::empty());
    while i < q.choices.len()
        invariant
            i <= q.choices@.len(),
            list == q.choices@,
            count == recommended(list.take(i as int)),
            count <= i,
            explained == forall|j: int| 0 <= j < i ==> is_explained(#[trigger] list[j]),
        decreases q.choices@.len() - i,
    {
        proof {
            assert(list.take(i + 1).drop_last() =~= list.take(i as int));
            assert(list.take(i + 1).last() == list[i as int]);
        }
        if q.choices[i].recommended {
            count = count + 1;
        }
        if !check_choice(&q.choices[i]) {
            assert(!is_explained(list[i as int]));
            explained = false;
        }
        i = i + 1;
    }
    assert(list.take(i as int) =~= list);
    if count > 1 || !explained {
        return Err(
            invalid(
                "each choice needs concise label, summary, advantages and disadvantages; mark at most one recommended choice",
            ),
        );
    }
    Ok(())
}

/// Answers with what the user chose, or fails where nothing was chosen.
pub fn conclude(call_id: ToolCallId, answer: Option<String>) -> (r: Result<ToolResult, ToolError>)
    ensures
        match answer {
            Some(a) => r matches Ok(t) && t.is_plain(
                call_id,
                ToolStatus::Success,
                "The user selected: "@ + a@,
                false,
            ),
            None => r matches Err(e) && e@ == (Failure {
                kind: FailureKind::Cancelled,
                text: Seq::empty(),
            }),
        },
{
    match answer {
        Some(a) => Ok(
            ToolResult::success(
                call_id,
                ToolOutput::new(cat2("The user selected: ", a.as_str())),
            ),
        ),
        None => Err(ToolError::Cancelled),
    }
}

/// Whether a text says something: one of its characters is not white space.
pub open spec fn says_something(s: Seq<char>) -> bool {
    !text_laws::all_white(s)
}

/// A question is put to the user exactly where its title says something, it has two, three or four
/// choices, each of them says what it is, what speaks for it and what against it, and no two of them
/// are recommended.
pub proof fn law_a_question_is_put_where_it_is_explained(q: UserQuestion)
    ensures
        question_fault(q) is None <==> {
            let list = q.choices@;
            &&& says_something(q.title@)
            &&& 2 <= list.len() <= 4
            &&& forall|i: int|
                0 <= i < list.len() ==> says_something((#[trigger] list[i]).label@)
                    && says_something(list[i].summary@) && says_something(list[i].advantages@)
                    && says_something(list[i].disadvantages@)
            &&& forall|i: int, j: int|
                0 <= i < j < list.len() ==> !((#[trigger] list[i]).recommended && (#[trigger] list[j])
                    .recommended)
        },
{
    let list = q.choices@;
    text_laws::lemma_blank(q.title@);
    assert forall|i: int| 0 <= i < list.len() implies (is_explained(#[trigger] list[i])
        <==> says_something(list[i].label@) && says_something(list[i].summary@) && says_something(
        list[i].advantages@,
    ) && says_something(list[i].disadvantages@)) by {
        text_laws::lemma_blank(list[i].label@);
        text_laws::lemma_blank(list[i].summary@);
        text_laws::lemma_blank(list[i].advantages@);
        text_laws::lemma_blank(list[i].disadvantages@);
    }
    lemma_recommended(list);
    if all_explained(list) {
        assert forall|i: int| 0 <= i < list.len() implies says_something((#[trigger] list[i]).label@)
            && says_something(list[i].summary@) && says_something(list[i].advantages@)
            && says_something(list[i].disadvantages@) by {
            assert(is_explained(list[i]));
        }
    }
}

proof fn lemma_recommended(list: Seq<UserChoice>)
    ensures
        recommended(list) == 0 <==> forall|i: int|
            0 <= i < list.len() ==> !(#[trigger] list[i]).recommended,
        recommended(list) <= 1 <==> forall|i: int, j: int|
            0 <= i < j < list.len() ==> !((#[trigger] list[i]).recommended && (#[trigger] list[j])
                .recommended),
    decreases list.len(),
{
    if list.len() > 0 {
        let some = list.drop_last();
        let n = list.len() - 1;
        lemma_recommended(some);
        assert forall|i: int| 0 <= i < n implies (#[trigger] some[i]) == list[i] by {}
        if recommended(some) == 0 {
            assert forall|i: int, j: int| 0 <= i < j < list.len() implies !((#[trigger] list[i])
                .recommended && (#[trigger] list[j]).recommended) by {
                assert(some[i] == list[i]);
            }
            if !list.last().recommended {
                assert forall|i: int| 0 <= i < list.len() implies !(#[trigger] list[i]).recommended by {
                    if i < n {
                        assert(some[i] == list[i]);
                    }
                }
            } else {
                assert(list[n].recommended);
            }
        } else {
            let i = choose|i: int| 0 <= i < some.len() && (#[trigger] some[i]).recommended;
            assert(list[i].recommended);
            if recommended(some) <= 1 {
                if list.last().recommended {
                    assert(list[n].recommended);
                } else {
                    assert forall|a: int, b: int| 0 <= a < b < list.len() implies !(
                    (#[trigger] list[a]).recommended && (#[trigger] list[b]).recommended) by {
                        if b < n {
                            assert(some[a] == list[a] && some[b] == list[b]);
                        }
                    }
                }
            } else {
                let (a, b) = choose|a: int, b: int|
                    0 <= a < b < some.len() && (#[trigger] some[a]).recommended && (
                    #[trigger] some[b]).recommended;
                assert(list[a].recommended && list[b].recommended);
            }
        }
    }
}

} // verus!
