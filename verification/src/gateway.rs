//! The correlation gateway: the table of requests that wait for a reply from
//! the kernel, each under a single-use token.
//!
//! The table decides which reply completes which request. The waiting itself
//! (the one-shot channel, the timer) belongs to the caller, who keeps one
//! channel per live token and acts on what the table returns.

use crate::envelope::{
    fresh_token, Envelope, EnvelopeView, GET_BASE_PATH_LIST_REQUEST,
    GET_CHILDREN_PATH_LIST_REQUEST,
};
use vstd::prelude::*;

verus! {

/// How long a request waits for its reply, in milliseconds.
pub const REPLY_TIMEOUT_MILLIS: u64 = 30000;

/// Why a request could not be registered.
#[derive(Debug, Clone, Copy, PartialEq, Eq)]
pub enum GatewayError {
    /// A request already waits under this token.
    DuplicateToken,
}

/// What a reply did to the table.
#[derive(Debug)]
pub enum Resolution {
    /// The request under `token` is completed with `result`; its entry is
    /// gone.
    Delivered { token: String, result: String },
    /// No request waits under the token: the reply is late or a duplicate.
    Unknown,
}

/// The requests that wait for their reply.
pub struct CorrelationTable {
    pending: Vec<String>,
}

/// The tokens of a list of strings, in order.
pub open spec fn token_views(tokens: Seq<String>) -> Seq<Seq<char>> {
    Seq::new(tokens.len(), |i: int| tokens[i]@)
}

impl View for CorrelationTable {
    type V = Set<Seq<char>>;

    /// The set of live tokens.
    closed spec fn view(&self) -> Set<Seq<char>> {
        Set::new(|t: Seq<char>| token_views(self.pending@).contains(t))
    }
}

/// The live tokens after a reply for `token` was handled, and after a
/// timeout for it: the token is live no longer.
pub open spec fn after_removal(live: Set<Seq<char>>, token: Seq<char>) -> Set<Seq<char>> {
    live.remove(token)
}

/// Whether a reply for `token` completes a request.
pub open spec fn completes(live: Set<Seq<char>>, token: Seq<char>) -> bool {
    live.contains(token)
}

impl CorrelationTable {
    /// The table's invariant: no token is entered twice.
    pub closed spec fn wf(&self) -> bool {
        token_views(self.pending@).no_duplicates()
    }

    /// A table without requests.
    pub fn new() -> (out: CorrelationTable)
        ensures
            out.wf(),
            out@ == Set::<Seq<char>>::empty(),
    {
        let out = CorrelationTable { pending: Vec::new() };
        assert(out@ =~= Set::<Seq<char>>::empty());
        out
    }

    fn position(&self, token: &str) -> (out: Option<usize>)
        ensures
            out is Some == self@.contains(token@),
            out matches Some(i) ==> i < self.pending@.len() && self.pending@[i as int]@ == token@,
    {
        let wanted = String::from_str(token);
        let mut i: usize = 0;
        while i < self.pending.len()
            invariant
                i <= self.pending.len(),
                wanted@ == token@,
                forall|j: int| 0 <= j < i ==> token_views(self.pending@)[j] != token@,
            decreases self.pending.len() - i,
        {
            if self.pending[i] == wanted {
                assert(token_views(self.pending@)[i as int] == token@);
                return Some(i);
            }
            i += 1;
        }
        None
    }

    /// Whether a request waits under `token`.
    pub fn is_live(&self, token: &str) -> (out: bool)
        ensures
            out == self@.contains(token@),
    {
        self.position(token).is_some()
    }

    /// The number of requests that wait.
    pub fn pending_count(&self) -> (out: usize)
        requires
            self.wf(),
        ensures
            out == self@.len(),
            self@.finite(),
    {
        proof {
            let tokens = token_views(self.pending@);
            assert(self@ =~= tokens.to_set());
            tokens.unique_seq_to_set();
        }
        self.pending.len()
    }

    /// Enters a request under `token`. Fails, and changes nothing, exactly
    /// when a request already waits under that token.
    pub fn register_pending(&mut self, token: String) -> (out: Result<(), GatewayError>)
        requires
            old(self).wf(),
        ensures
            final(self).wf(),
            old(self)@.contains(token@) ==> out == Err::<(), GatewayError>(
                GatewayError::DuplicateToken,
            ) && final(self)@ == old(self)@,
            !old(self)@.contains(token@) ==> out is Ok && final(self)@ == old(self)@.insert(token@),
    {
        if self.is_live(token.as_str()) {
            return Err(GatewayError::DuplicateToken);
        }
        let ghost before = token_views(self.pending@);
        self.pending.push(token);
        proof {
            let after = token_views(self.pending@);
            assert(after =~= before.push(token@));
            assert forall|a: int, b: int|
                0 <= a < after.len() && 0 <= b < after.len() && a != b implies after[a]
                != after[b] by {
                if a < before.len() {
                    assert(before.contains(before[a]));
                }
                if b < before.len() {
                    assert(before.contains(before[b]));
                }
            }
            assert forall|t: Seq<char>| after.contains(t) == (before.contains(t) || t == token@) by {
                if before.contains(t) {
                    let k = choose|k: int| 0 <= k < before.len() && before[k] == t;
                    assert(after[k] == t);
                }
                if t == token@ {
                    assert(after[before.len() as int] == t);
                }
            }
            assert(final(self)@ =~= old(self)@.insert(token@));
        }
        Ok(())
    }

    fn take(&mut self, token: &str) -> (out: Option<String>)
        requires
            old(self).wf(),
        ensures
            final(self).wf(),
            final(self)@ == after_removal(old(self)@, token@),
            out is Some == completes(old(self)@, token@),
            out matches Some(t) ==> t@ == token@,
    {
        match self.position(token) {
            None => {
                assert(final(self)@ =~= old(self)@.remove(token@));
                None
            },
            Some(i) => {
                let ghost before = token_views(self.pending@);
                let taken = self.pending.remove(i);
                proof {
                    let after = token_views(self.pending@);
                    assert(after =~= before.remove(i as int));
                    assert forall|a: int, b: int|
                        0 <= a < after.len() && 0 <= b < after.len() && a != b implies after[a]
                        != after[b] by {
                        let a0 = if a < i { a } else { a + 1 };
                        let b0 = if b < i { b } else { b + 1 };
                        assert(after[a] == before[a0] && after[b] == before[b0]);
                    }
                    assert forall|t: Seq<char>| after.contains(t) == (before.contains(t) && t
                        != token@) by {
                        if after.contains(t) {
                            let k = choose|k: int| 0 <= k < after.len() && after[k] == t;
                            let k0 = if k < i { k } else { k + 1 };
                            assert(before[k0] == t);
                            assert(before[i as int] == token@);
                            assert(before.no_duplicates());
                            assert(k0 != i);
                        }
                        if before.contains(t) && t != token@ {
                            let k = choose|k: int| 0 <= k < before.len() && before[k] == t;
                            assert(before[i as int] == token@);
                            let k1 = if k < i { k } else { k - 1 };
                            assert(after[k1] == t);
                        }
                    }
                    assert(final(self)@ =~= old(self)@.remove(token@));
                }
                Some(taken)
            },
        }
    }

    /// Handles the reply `result` for `token`. If a request waits under the
    /// token, it is completed with `result` and its entry removed; if none
    /// does, nothing changes.
    pub fn resolve(&mut self, token: &str, result: String) -> (out: Resolution)
        requires
            old(self).wf(),
        ensures
            final(self).wf(),
            final(self)@ == after_removal(old(self)@, token@),
            completes(old(self)@, token@) ==> (out matches Resolution::Delivered {
                token: t,
                result: r,
            } && t@ == token@ && r@ == result@),
            !completes(old(self)@, token@) ==> out is Unknown && final(self)@ == old(self)@,
    {
        match self.take(token) {
            Some(t) => Resolution::Delivered { token: t, result },
            None => {
                assert(old(self)@.remove(token@) =~= old(self)@);
                Resolution::Unknown
            },
        }
    }

    /// Gives up the request under `token` after its wait has run out.
    /// Returns whether a request was still waiting, that is, whether a
    /// timeout is to be reported; the token is not live afterwards.
    pub fn expire(&mut self, token: &str) -> (out: bool)
        requires
            old(self).wf(),
        ensures
            final(self).wf(),
            final(self)@ == after_removal(old(self)@, token@),
            out == completes(old(self)@, token@),
    {
        self.take(token).is_some()
    }
}

/// Handles a reply that came from the kernel: the envelope's `uuid` is the
/// token, its `content` the result.
pub fn handle_android_front_end_response(
    table: &mut CorrelationTable,
    kernel_and_front_end_json: Envelope,
) -> (out: Resolution)
    requires
        old(table).wf(),
    ensures
        final(table).wf(),
        final(table)@ == after_removal(old(table)@, kernel_and_front_end_json.uuid@),
        completes(old(table)@, kernel_and_front_end_json.uuid@) ==> (out matches Resolution::Delivered {
            token: t,
            result: r,
        } && t@ == kernel_and_front_end_json.uuid@ && r@ == kernel_and_front_end_json.content@),
        !completes(old(table)@, kernel_and_front_end_json.uuid@) ==> out is Unknown && final(table)@
            == old(table)@,
{
    let Envelope { uuid, code: _, content, content_type: _ } = kernel_and_front_end_json;
    table.resolve(uuid.as_str(), content)
}

/// The request that asks the kernel for a path listing: the root listing
/// for the path `base`, the children of `path` for any other.
pub open spec fn path_list_envelope(token: Seq<char>, path: Seq<char>) -> EnvelopeView {
    if path == "base"@ {
        EnvelopeView {
            uuid: token,
            code: GET_BASE_PATH_LIST_REQUEST,
            content: Seq::empty(),
            content_type: 0,
        }
    } else {
        EnvelopeView {
            uuid: token,
            code: GET_CHILDREN_PATH_LIST_REQUEST,
            content: path,
            content_type: 0,
        }
    }
}

/// Builds the request for a path listing under `token`.
pub fn path_list_request(token: String, path: &str) -> (out: Envelope)
    ensures
        out@ == path_list_envelope(token@, path@),
{
    let wanted = String::from_str(path);
    if wanted == String::from_str("base") {
        Envelope { uuid: token, code: GET_BASE_PATH_LIST_REQUEST, content: String::new(), content_type: 0 }
    } else {
        Envelope { uuid: token, code: GET_CHILDREN_PATH_LIST_REQUEST, content: wanted, content_type: 0 }
    }
}

/// How a request for a path listing starts.
#[derive(Debug)]
pub enum PathListStart {
    /// The query named no path: answer at once with this body.
    Answer(String),
    /// The request is entered in the table: send the envelope to the kernel
    /// and wait for the reply under its token.
    Issued(Envelope),
    /// The token is taken by a request that still waits: nothing was entered.
    Collision,
}

/// The body of the answer to a query without a path.
pub open spec fn missing_path_body() -> Seq<char> {
    "err 1"@
}

/// Starts a request for a path listing under the given token.
pub fn start_path_list(table: &mut CorrelationTable, path: Option<&str>, token: String) -> (out:
    PathListStart)
    requires
        old(table).wf(),
    ensures
        final(table).wf(),
        match path {
            None => final(table)@ == old(table)@ && (out matches PathListStart::Answer(body)
                && body@ == missing_path_body()),
            Some(p) => if old(table)@.contains(token@) {
                final(table)@ == old(table)@ && out is Collision
            } else {
                final(table)@ == old(table)@.insert(token@) && (out matches PathListStart::Issued(e)
                    && e@ == path_list_envelope(token@, p@))
            },
        },
{
    match path {
        None => PathListStart::Answer(String::from_str("err 1")),
        Some(p) => {
            let request = path_list_request(token.clone(), p);
            match table.register_pending(token) {
                Ok(_) => PathListStart::Issued(request),
                Err(_) => PathListStart::Collision,
            }
        },
    }
}

/// Starts a request for a path listing under a token drawn at random. A
/// query without a path is answered at once. With a path, the request is
/// entered under the token drawn and handed out for the kernel, unless a
/// request already waits under that very token: only then is a collision
/// reported, so a table in which no request waits always issues the request.
pub fn get_path_list(table: &mut CorrelationTable, path: Option<&str>) -> (out: PathListStart)
    requires
        old(table).wf(),
    ensures
        final(table).wf(),
        match out {
            PathListStart::Answer(body) => path is None && final(table)@ == old(table)@ && body@
                == missing_path_body(),
            PathListStart::Issued(e) => path is Some && !old(table)@.contains(e@.uuid)
                && final(table)@ == old(table)@.insert(e@.uuid) && e@ == path_list_envelope(
                e@.uuid,
                path.unwrap()@,
            ),
            PathListStart::Collision => path is Some && final(table)@ == old(table)@ && exists|
                token: Seq<char>,
            |
                old(table)@.contains(token),
        },
        path is None ==> out is Answer,
        path is Some && old(table)@ == Set::<Seq<char>>::empty() ==> out is Issued,
{
    match path {
        None => start_path_list(table, path, String::new()),
        Some(_) => {
            let token = fresh_token();
            let ghost drawn = token@;
            let out = start_path_list(table, path, token);
            assert(out is Collision ==> old(table)@.contains(drawn));
            out
        },
    }
}

/// How the wait for a reply stands.
#[derive(Debug)]
pub enum Awaited {
    /// The reply has come; this is its content.
    Reply(String),
    /// No reply came within [`REPLY_TIMEOUT_MILLIS`]: the request is given
    /// up and its token is live no longer.
    TimedOut,
    /// No reply yet, and the time is not up.
    Waiting,
}

/// Looks at a wait that has lasted `waited_millis` milliseconds. A reply
/// ends it, whenever it came. Without one the wait ends exactly when the
/// time is up; the token is then taken out of the table, so that the entry
/// does not stay behind.
pub fn await_reply(
    table: &mut CorrelationTable,
    token: &str,
    reply: Option<String>,
    waited_millis: u64,
) -> (out: Awaited)
    requires
        old(table).wf(),
    ensures
        final(table).wf(),
        match reply {
            Some(content) => final(table)@ == old(table)@ && (out matches Awaited::Reply(r) && r@
                == content@),
            None => if waited_millis >= REPLY_TIMEOUT_MILLIS {
                out is TimedOut && final(table)@ == after_removal(old(table)@, token@)
            } else {
                out is Waiting && final(table)@ == old(table)@
            },
        },
{
    match reply {
        Some(content) => Awaited::Reply(content),
        None => {
            if waited_millis >= REPLY_TIMEOUT_MILLIS {
                table.expire(token);
                Awaited::TimedOut
            } else {
                Awaited::Waiting
            }
        },
    }
}

/// The answer to the HTTP caller once the wait is over.
#[derive(Debug)]
pub struct PathListAnswer {
    /// HTTP status code.
    pub status: u16,
    /// Response body.
    pub body: String,
}

/// Ends the wait for the reply under `token` and gives the HTTP answer. A
/// reply is answered with its content and status 200. Without one (the wait
/// ran out, or the request was abandoned) the token is taken out of the
/// table, so that the entry does not stay behind, and the answer is status
/// 500 without a body.
pub fn finish_path_list(table: &mut CorrelationTable, token: &str, reply: Option<String>) -> (out:
    PathListAnswer)
    requires
        old(table).wf(),
    ensures
        final(table).wf(),
        match reply {
            Some(content) => final(table)@ == old(table)@ && out.status == 200 && out.body@
                == content@,
            None => final(table)@ == after_removal(old(table)@, token@) && out.status == 500
                && out.body@ == Seq::<char>::empty(),
        },
{
    match reply {
        Some(content) => PathListAnswer { status: 200, body: content },
        None => {
            table.expire(token);
            PathListAnswer { status: 500, body: String::new() }
        },
    }
}

/// A token is single-use: once a reply for it was handled, or its wait ran
/// out, no further reply for it completes anything, and handling one
/// again leaves the table as it is.
pub proof fn lemma_token_is_single_use(live: Set<Seq<char>>, token: Seq<char>)
    ensures
        !completes(after_removal(live, token), token),
        after_removal(after_removal(live, token), token) == after_removal(live, token),
{
    assert(after_removal(after_removal(live, token), token) =~= after_removal(live, token));
}

/// A request entered under a token that was free is completed by the first
/// reply for that token, and the table is then as it was before the request.
pub proof fn lemma_first_reply_completes(live: Set<Seq<char>>, token: Seq<char>)
    requires
        !live.contains(token),
    ensures
        completes(live.insert(token), token),
        after_removal(live.insert(token), token) == live,
{
    assert(after_removal(live.insert(token), token) =~= live);
}

/// Handling a reply or a timeout for one token leaves every other token as
/// it was.
pub proof fn lemma_removal_spares_others(live: Set<Seq<char>>, token: Seq<char>, other: Seq<char>)
    requires
        other != token,
    ensures
        completes(after_removal(live, token), other) == completes(live, other),
{
}

} // verus!
