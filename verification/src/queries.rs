use crate::error::{StdError, StdErrorView};
use crate::host::{
    failure_reason, reason_of, reply_views, HostReply, HostReplyView, HostRequest, HostRequestView,
    Progress,
};
use crate::msg::SerializableJson;
use crate::value::{Node};
use vstd::prelude::*;

verus! {

/// The responses to a list of queries, in the order of the queries.
#[derive(Debug, PartialEq, Eq)]
pub struct MultiQueryResponse {
    pub responses: Vec<SerializableJson>,
}

impl View for MultiQueryResponse {
    type V = Seq<Node>;

    open spec fn view(&self) -> Seq<Node> {
        Seq::new(self.responses@.len(), |i: int| self.responses@[i]@)
    }
}

/// The views of a vector of query descriptors, in order.
pub open spec fn query_views(queries: Seq<SerializableJson>) -> Seq<Node> {
    Seq::new(queries.len(), |i: int| queries[i]@)
}

/// The message with which a descriptor that is no query is refused.
pub open spec fn not_a_query() -> Seq<char> {
    "Failed to serialize query message"@
}

/// What running several queries comes to.
pub enum Answers {
    /// An answer is needed that was not given.
    Pending(HostRequestView),
    /// Every query is answered.
    Ready(Seq<Node>),
    /// A query failed.
    Failed(StdErrorView),
}

/// What running the queries from the one at `from` on comes to, given the
/// answers: the answer to the query at `i` is the reply at `i`; the first
/// query that is refused or fails ends the run.
pub open spec fn answers_from(queries: Seq<Node>, replies: Seq<HostReplyView>, from: int, done: Seq<Node>) -> Answers
    decreases queries.len() - from,
{
    if from < 0 || from >= queries.len() {
        Answers::Ready(done)
    } else if from >= replies.len() {
        Answers::Pending(HostRequestView::Query { query_msg: queries[from] })
    } else {
        match replies[from] {
            HostReplyView::Response(response) => answers_from(
                queries,
                replies,
                from + 1,
                done.push(response),
            ),
            HostReplyView::Rejected => Answers::Failed(StdErrorView::GenericErr { msg: not_a_query() }),
            other => Answers::Failed(StdErrorView::GenericErr { msg: failure_reason(other) }),
        }
    }
}

/// Runs the queries one after another and returns their responses as they
/// came, in the order of the queries.
pub fn multi_query(queries: &Vec<SerializableJson>, replies: &Vec<HostReply>) -> (r: Result<
    Progress<MultiQueryResponse>,
    StdError,
>)
    ensures
        match answers_from(query_views(queries@), reply_views(replies@), 0, Seq::empty()) {
            Answers::Pending(request) => r matches Ok(Progress::Pending(asked)) && asked@ == request,
            Answers::Ready(responses) => r matches Ok(Progress::Ready(given)) && given@ == responses,
            Answers::Failed(e) => r matches Err(err) && err@ == e,
        },
{
    let ghost all = query_views(queries@);
    let ghost answers = reply_views(replies@);
    let mut responses: Vec<SerializableJson> = Vec::new();
    let mut i: usize = 0;
    assert(query_views(responses@) =~= Seq::<Node>::empty());
    while i < queries.len()
        invariant
            all == query_views(queries@),
            answers == reply_views(replies@),
            i <= queries.len(),
            answers_from(all, answers, 0, Seq::empty()) == answers_from(
                all,
                answers,
                i as int,
                query_views(responses@),
            ),
        decreases queries.len() - i,
    {
        assert(all[i as int] == queries[i as int]@);
        if i >= replies.len() {
            return Ok(Progress::Pending(HostRequest::Query { query_msg: queries[i].0.duplicate() }));
        }
        assert(answers[i as int] == replies[i as int]@);
        match &replies[i] {
            HostReply::Response(response) => {
                let ghost before = query_views(responses@);
                responses.push(SerializableJson(response.duplicate()));
                assert(query_views(responses@) =~= before.push(response@));
            },
            HostReply::Rejected => {
                return Err(
                    StdError::GenericErr { msg: "Failed to serialize query message".to_owned() },
                );
            },
            other => {
                return Err(StdError::GenericErr { msg: reason_of(other) });
            },
        }
        i += 1;
    }
    let response = MultiQueryResponse { responses };
    assert(response@ =~= query_views(responses@));
    Ok(Progress::Ready(response))
}

} // verus!
