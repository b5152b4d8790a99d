//! Messages between agents: numbered, kept for a while, read page by page.

use crate::assignment::{require_agent_in_scope, scope_fault, NamedAgent};
use crate::checkpoint::{same_workspace, workspaces_match};
use crate::error::{
    conflict, conflict_fault, fault, first_fault, forbidden, forbidden_fault, invalid,
    invalid_fault, refused, Fault, OrchError, OrchErrorCode,
};
use crate::json::Json;
use crate::listing::{
    by_numbers, counts, lowest_first, number_ranks, numbers_are_ordered, text_of, zeros,
};
use crate::order::{every_list_has_an_order, is_order, listed_before};
use crate::run::holds;
use crate::text::{copy, number_of, parse_number, str_eq, trim, trimmed};
use vstd::prelude::*;
use vstd::string::*;

verus! {

/// A message on record.
#[derive(Debug)]
pub struct WorkMessage {
    pub message_id: String,
    /// Its place among all messages.
    pub seq: u64,
    pub kind: String,
    pub from_actor: String,
    pub from_agent_id: Option<String>,
    pub to_agent_id: Option<String>,
    pub session_id: u128,
    pub workspace: String,
    pub work_id: Option<String>,
    pub attempt_id: Option<String>,
    pub run_id: Option<String>,
    pub reply_to_id: Option<String>,
    pub thread_id: Option<String>,
    pub body: String,
    pub payload: Option<Json>,
    pub expires_at: Option<i128>,
    pub acked_at: Option<i128>,
    pub acked_by: Option<String>,
}

/// The text of an optional string.
pub open spec fn option_text(s: Option<String>) -> Option<Seq<char>> {
    match s {
        Some(s) => Some(s@),
        None => None,
    }
}

/// The text of an optional document.
pub open spec fn option_json(j: Option<Json>) -> Option<Seq<char>> {
    match j {
        Some(j) => Some(j@),
        None => None,
    }
}

/// Two messages with the same content.
pub open spec fn same_content(a: WorkMessage, b: WorkMessage) -> bool {
    &&& a.kind@ == b.kind@
    &&& a.from_actor@ == b.from_actor@
    &&& option_text(a.from_agent_id) == option_text(b.from_agent_id)
    &&& option_text(a.to_agent_id) == option_text(b.to_agent_id)
    &&& a.session_id == b.session_id
    &&& a.workspace@ == b.workspace@
    &&& option_text(a.work_id) == option_text(b.work_id)
    &&& option_text(a.attempt_id) == option_text(b.attempt_id)
    &&& option_text(a.run_id) == option_text(b.run_id)
    &&& option_text(a.reply_to_id) == option_text(b.reply_to_id)
    &&& option_text(a.thread_id) == option_text(b.thread_id)
    &&& a.body@ == b.body@
    &&& option_json(a.payload) == option_json(b.payload)
    &&& a.expires_at == b.expires_at
}

fn same_option(a: &Option<String>, b: &Option<String>) -> (r: bool)
    ensures
        r == (option_text(*a) == option_text(*b)),
{
    match (a, b) {
        (Some(a), Some(b)) => str_eq(a.as_str(), b.as_str()),
        (None, None) => true,
        _ => false,
    }
}

fn contents_match(a: &WorkMessage, b: &WorkMessage) -> (r: bool)
    ensures
        r == same_content(*a, *b),
{
    let payload: bool = match (&a.payload, &b.payload) {
        (Some(a), Some(b)) => str_eq(a.text.as_str(), b.text.as_str()),
        (None, None) => true,
        _ => false,
    };
    let parties: bool = str_eq(a.kind.as_str(), b.kind.as_str()) && str_eq(
        a.from_actor.as_str(),
        b.from_actor.as_str(),
    ) && same_option(&a.from_agent_id, &b.from_agent_id) && same_option(
        &a.to_agent_id,
        &b.to_agent_id,
    ) && a.session_id == b.session_id && str_eq(a.workspace.as_str(), b.workspace.as_str());
    let subject: bool = same_option(&a.work_id, &b.work_id) && same_option(
        &a.attempt_id,
        &b.attempt_id,
    ) && same_option(&a.run_id, &b.run_id) && same_option(&a.reply_to_id, &b.reply_to_id)
        && same_option(&a.thread_id, &b.thread_id);
    parties && subject && str_eq(a.body.as_str(), b.body.as_str()) && payload && a.expires_at
        == b.expires_at
}

/// What is known about a message that is to be sent.
#[derive(Debug)]
pub struct SendFacts {
    /// Why the message is refused as it stands.
    pub refusal: Option<OrchError>,
    /// The agents that it names.
    pub from_agent: Option<NamedAgent>,
    pub to_agent: Option<NamedAgent>,
    /// What its workspace resolves to on disk.
    pub workspace_path: Option<String>,
    /// The last number that was given out.
    pub last_seq: u64,
}

/// Why an agent that a message names may not take part.
pub open spec fn party_fault(
    agent: Option<NamedAgent>,
    message: WorkMessage,
    path: Option<String>,
) -> Option<Fault> {
    match agent {
        None => None,
        Some(a) => scope_fault(a, message.session_id, message.workspace@, path),
    }
}

/// What sending a message comes to.
pub open spec fn sent(r: Result<WorkMessage, OrchError>, message: WorkMessage, facts: SendFacts) -> bool {
    match facts.refusal {
        Some(e) => r == Err::<WorkMessage, OrchError>(e),
        None => match first_fault(
            party_fault(facts.from_agent, message, facts.workspace_path),
            party_fault(facts.to_agent, message, facts.workspace_path),
        ) {
            Some(f) => refused(r, f),
            None => r == Ok::<WorkMessage, OrchError>(
                WorkMessage { seq: (facts.last_seq + 1) as u64, ..message },
            ),
        },
    }
}

/// Sends a message: checks its parties and gives it the next number.
pub fn send_message(message: WorkMessage, facts: SendFacts) -> (r: Result<WorkMessage, OrchError>)
    requires
        facts.last_seq < u64::MAX,
    ensures
        sent(r, message, facts),
{
    match facts.refusal {
        Some(e) => {
            return Err(e);
        },
        None => {},
    }
    match &facts.from_agent {
        Some(a) => {
            require_agent_in_scope(
                a,
                message.session_id,
                message.workspace.as_str(),
                &facts.workspace_path,
            )?;
        },
        None => {},
    }
    match &facts.to_agent {
        Some(a) => {
            require_agent_in_scope(
                a,
                message.session_id,
                message.workspace.as_str(),
                &facts.workspace_path,
            )?;
        },
        None => {},
    }
    let mut message: WorkMessage = message;
    message.seq = facts.last_seq + 1;
    Ok(message)
}

/// What sending a message once comes to.
pub open spec fn sent_once(
    message: WorkMessage,
    existing: Option<WorkMessage>,
    facts: SendFacts,
    r: (Result<WorkMessage, OrchError>, bool),
) -> bool {
    match existing {
        Some(e) => {
            &&& !r.1
            &&& if same_content(e, message) {
                r.0 == Ok::<WorkMessage, OrchError>(e)
            } else {
                refused(
                    r.0,
                    conflict_fault(
                        "stable message identity was replayed with different content"@,
                    ),
                )
            }
        },
        None => sent(r.0, message, facts) && r.1 == r.0 is Ok,
    }
}

/// Sends a message whose identity the host derived, exactly once: a replay is
/// answered with the message on record, and other content under the same
/// identity is refused. The second part of the answer says whether the message
/// is to be written.
pub fn send_message_once(
    message: WorkMessage,
    existing: Option<WorkMessage>,
    facts: SendFacts,
) -> (r: (Result<WorkMessage, OrchError>, bool))
    requires
        facts.last_seq < u64::MAX,
    ensures
        sent_once(
            message,
            existing,
            facts,
            r,
        ),
{
    match existing {
        Some(e) => {
            if contents_match(&e, &message) {
                (Ok(e), false)
            } else {
                (
                    Err(conflict("stable message identity was replayed with different content")),
                    false,
                )
            }
        },
        None => {
            let r: Result<WorkMessage, OrchError> = send_message(message, facts);
            let written: bool = r.is_ok();
            (r, written)
        },
    }
}

/// The last number that was given out, as its file holds it. A file that cannot
/// be read as a number counts as none.
pub fn last_message_seq(text: Option<&str>) -> (n: u64)
    ensures
        n == match text {
            Some(t) => match number_of(trimmed(t@)) {
                Some(n) => n,
                None => 0,
            },
            None => 0,
        },
{
    match text {
        Some(t) => match parse_number(trim(t).as_str()) {
            Some(n) => n,
            None => 0,
        },
        None => 0,
    }
}

/// Who reads: a session in a workspace, with what the workspace and those of
/// the messages resolve to on disk.
#[derive(Debug)]
pub struct MessageScope {
    pub session_id: u128,
    pub workspace: String,
    pub path: Option<String>,
}

/// A message belongs to a session in a workspace.
pub open spec fn in_scope(m: WorkMessage, path: Option<String>, scope: MessageScope) -> bool {
    m.session_id == scope.session_id && same_workspace(
        m.workspace@,
        scope.workspace@,
        path,
        scope.path,
    )
}

fn is_in_scope(m: &WorkMessage, path: &Option<String>, scope: &MessageScope) -> (r: bool)
    ensures
        r == in_scope(*m, *path, *scope),
{
    m.session_id == scope.session_id && workspaces_match(
        m.workspace.as_str(),
        scope.workspace.as_str(),
        path,
        &scope.path,
    )
}

/// What acknowledging a message comes to.
pub open spec fn acked(
    message: Option<WorkMessage>,
    path: Option<String>,
    scope: Option<MessageScope>,
    actor: Seq<char>,
    now: i128,
    r: Result<(WorkMessage, bool), OrchError>,
) -> bool {
    match message {
        None => refused(r, invalid_fault("unknown message_id"@)),
        Some(m) => if scope is Some && !in_scope(m, path, scope->0) {
            refused(r, forbidden_fault("message is out of scope"@))
        } else if m.acked_at is Some {
            r == Ok::<(WorkMessage, bool), OrchError>((m, false))
        } else {
            &&& r is Ok
            &&& r->Ok_0.1
            &&& holds(r->Ok_0.0.acked_by, actor)
            &&& r->Ok_0.0 == (WorkMessage {
                acked_at: Some(now),
                acked_by: r->Ok_0.0.acked_by,
                ..m
            })
        },
    }
}

/// Acknowledges a message. The first acknowledgement stands, and a caller
/// outside the scope changes nothing. The second part of the answer says
/// whether the message is to be written.
pub fn ack_message(
    message: Option<WorkMessage>,
    path: &Option<String>,
    scope: Option<&MessageScope>,
    actor_id: &str,
    now: i128,
) -> (r: Result<(WorkMessage, bool), OrchError>)
    ensures
        acked(
            message,
            *path,
            match scope {
                Some(s) => Some(*s),
                None => None,
            },
            actor_id@,
            now,
            r,
        ),
{
    let mut message: WorkMessage = match message {
        Some(m) => m,
        None => {
            return Err(invalid("unknown message_id"));
        },
    };
    match scope {
        Some(scope) => {
            if !is_in_scope(&message, path, scope) {
                return Err(forbidden("message is out of scope"));
            }
        },
        None => {},
    }
    if message.acked_at.is_none() {
        message.acked_at = Some(now);
        message.acked_by = Some(copy(actor_id));
        Ok((message, true))
    } else {
        Ok((message, false))
    }
}

/// A message that a reader asked for: one to this inbox, or from this actor.
pub open spec fn is_wanted(
    m: WorkMessage,
    path: Option<String>,
    scope: MessageScope,
    inbox: Option<Seq<char>>,
    outbox: Option<Seq<char>>,
) -> bool {
    &&& in_scope(m, path, scope)
    &&& inbox is Some ==> holds(m.to_agent_id, inbox->0)
    &&& outbox is Some ==> m.from_actor@ == outbox->0 || holds(m.from_agent_id, outbox->0)
}

/// The positions of the wanted messages below `n`.
pub open spec fn wanted(
    messages: Seq<WorkMessage>,
    paths: Seq<Option<String>>,
    scope: MessageScope,
    inbox: Option<Seq<char>>,
    outbox: Option<Seq<char>>,
    n: int,
) -> Seq<usize>
    decreases n,
{
    if n <= 0 {
        Seq::empty()
    } else {
        let rest = wanted(messages, paths, scope, inbox, outbox, n - 1);
        if is_wanted(messages[n - 1], paths[n - 1], scope, inbox, outbox) {
            rest.push((n - 1) as usize)
        } else {
            rest
        }
    }
}

/// The numbers of the messages at these positions.
pub open spec fn seqs_at(messages: Seq<WorkMessage>, at: Seq<usize>) -> Seq<u64> {
    Seq::new(at.len(), |i: int| messages[at[i] as int].seq)
}

/// These positions in the order of their numbers.
pub open spec fn by_seq(messages: Seq<WorkMessage>, at: Seq<usize>) -> Seq<usize> {
    let order = by_numbers(counts(seqs_at(messages, at)), zeros(at.len()));
    Seq::new(order.len(), |i: int| at[order[i] as int])
}

/// The wanted messages in the order of their numbers.
pub open spec fn listed(
    messages: Seq<WorkMessage>,
    paths: Seq<Option<String>>,
    scope: MessageScope,
    inbox: Option<Seq<char>>,
    outbox: Option<Seq<char>>,
) -> Seq<usize> {
    by_seq(
        messages,
        wanted(messages, paths, scope, inbox, outbox, messages.len() as int),
    )
}

/// The first number that is still kept.
pub open spec fn retained_from(messages: Seq<WorkMessage>, list: Seq<usize>) -> u64 {
    if list.len() > 0 {
        messages[list[0] as int].seq
    } else {
        1
    }
}

/// The members of `list` below `n` that come after a number.
pub open spec fn after(
    messages: Seq<WorkMessage>,
    list: Seq<usize>,
    after_seq: u64,
    n: int,
) -> Seq<usize>
    decreases n,
{
    if n <= 0 {
        Seq::empty()
    } else {
        let rest = after(messages, list, after_seq, n - 1);
        if messages[list[n - 1] as int].seq > after_seq {
            rest.push(list[n - 1])
        } else {
            rest
        }
    }
}

/// `n` brought between 1 and `max`.
pub open spec fn clamped(n: usize, max: usize) -> usize {
    if n < 1 {
        1
    } else if n > max {
        max
    } else {
        n
    }
}

/// The first `n` of a list, or all of it.
pub open spec fn at_most(list: Seq<usize>, n: usize) -> Seq<usize> {
    if list.len() <= n {
        list
    } else {
        list.take(n as int)
    }
}

/// The last `n` of a list, or all of it.
pub open spec fn last_of(list: Seq<usize>, n: usize) -> Seq<usize> {
    if list.len() <= n {
        list
    } else {
        list.skip(list.len() - n)
    }
}

/// The number of the last message of a page.
pub open spec fn last_seq(messages: Seq<WorkMessage>, page: Seq<usize>, otherwise: u64) -> u64 {
    if page.len() > 0 {
        messages[page.last() as int].seq
    } else {
        otherwise
    }
}

/// A page of messages, by position.
#[derive(Debug)]
pub struct MessagePage {
    pub messages: Vec<usize>,
    pub next_seq: u64,
    pub retained_from_seq: u64,
}

fn collect(
    messages: &Vec<WorkMessage>,
    paths: &Vec<Option<String>>,
    scope: &MessageScope,
    inbox: Option<&str>,
    outbox: Option<&str>,
) -> (list: Vec<usize>)
    requires
        paths@.len() == messages@.len(),
    ensures
        list@ == listed(messages@, paths@, *scope, text_of(inbox), text_of(outbox)),
        forall|i: int| 0 <= i < list@.len() ==> 0 <= #[trigger] list@[i] < messages@.len(),
{
    let mut at: Vec<usize> = Vec::new();
    let mut seqs: Vec<u64> = Vec::new();
    let mut i: usize = 0;
    while i < messages.len()
        invariant
            i <= messages@.len(),
            paths@.len() == messages@.len(),
            at@ == wanted(messages@, paths@, *scope, text_of(inbox), text_of(outbox), i as int),
            forall|j: int| 0 <= j < at@.len() ==> 0 <= #[trigger] at@[j] < i,
            seqs@.len() == at@.len(),
            forall|j: int| 0 <= j < at@.len() ==> #[trigger] seqs@[j] == messages@[at@[j] as int].seq,
        decreases messages.len() - i,
    {
        let m: &WorkMessage = &messages[i];
        let for_inbox: bool = match inbox {
            Some(agent) => match &m.to_agent_id {
                Some(to) => str_eq(to.as_str(), agent),
                None => false,
            },
            None => true,
        };
        let from_outbox: bool = match outbox {
            Some(actor) => str_eq(m.from_actor.as_str(), actor) || match &m.from_agent_id {
                Some(from) => str_eq(from.as_str(), actor),
                None => false,
            },
            None => true,
        };
        if is_in_scope(m, &paths[i], scope) && for_inbox && from_outbox {
            at.push(i);
            seqs.push(m.seq);
        }
        i = i + 1;
    }
    proof {
        assert(seqs@ =~= seqs_at(messages@, at@));
    }
    let order: Vec<usize> = lowest_first(&seqs);
    let mut list: Vec<usize> = Vec::new();
    let mut k: usize = 0;
    while k < order.len()
        invariant
            k <= order@.len(),
            order@.len() == at@.len(),
            forall|j: int| 0 <= j < order@.len() ==> 0 <= #[trigger] order@[j] < at@.len(),
            forall|j: int| 0 <= j < at@.len() ==> 0 <= #[trigger] at@[j] < messages@.len(),
            list@.len() == k,
            forall|j: int| 0 <= j < k ==> #[trigger] list@[j] == at@[order@[j] as int],
            forall|j: int| 0 <= j < k ==> 0 <= #[trigger] list@[j] < messages@.len(),
        decreases order.len() - k,
    {
        list.push(at[order[k]]);
        k = k + 1;
    }
    proof {
        assert(list@ =~= by_seq(messages@, at@));
    }
    list
}

/// Why a reader's place is lost.
pub open spec fn cursor_fault(
    messages: Seq<WorkMessage>,
    list: Seq<usize>,
    after_seq: u64,
) -> Option<Fault> {
    if after_seq > 0 && list.len() > 0 && after_seq + 1 < retained_from(messages, list) {
        Some(
            fault(
                OrchErrorCode::CursorExpired,
                "message cursor expired for the retained window"@,
            ),
        )
    } else {
        None
    }
}

/// What asking for a page of messages comes to.
pub open spec fn paging(
    messages: Seq<WorkMessage>,
    paths: Seq<Option<String>>,
    scope: MessageScope,
    after_seq: u64,
    inbox: Option<Seq<char>>,
    outbox: Option<Seq<char>>,
    limit: usize,
    r: Result<MessagePage, OrchError>,
) -> bool {
    let list = listed(messages, paths, scope, inbox, outbox);
    match cursor_fault(messages, list, after_seq) {
        Some(f) => refused(r, f),
        None => {
            &&& r is Ok
            &&& r->Ok_0.messages@ == at_most(
                after(messages, list, after_seq, list.len() as int),
                clamped(limit, 200),
            )
            &&& r->Ok_0.next_seq == last_seq(messages, r->Ok_0.messages@, after_seq)
            &&& r->Ok_0.retained_from_seq == retained_from(messages, list)
        },
    }
}

/// The messages after a number, oldest first, at most 200 of them. A reader
/// that fell behind what is kept is told so.
pub fn list_messages(
    messages: &Vec<WorkMessage>,
    paths: &Vec<Option<String>>,
    scope: &MessageScope,
    after_seq: u64,
    inbox_agent_id: Option<&str>,
    outbox_actor: Option<&str>,
    limit: usize,
) -> (r: Result<MessagePage, OrchError>)
    requires
        paths@.len() == messages@.len(),
    ensures
        paging(
            messages@,
            paths@,
            *scope,
            after_seq,
            text_of(inbox_agent_id),
            text_of(outbox_actor),
            limit,
            r,
        ),
{
    let list: Vec<usize> = collect(messages, paths, scope, inbox_agent_id, outbox_actor);
    let retained_from_seq: u64 = if list.len() > 0 {
        messages[list[0]].seq
    } else {
        1
    };
    if after_seq > 0 && list.len() > 0 && retained_from_seq > 0 && after_seq < retained_from_seq
        - 1 {
        return Err(
            OrchError::new(
                OrchErrorCode::CursorExpired,
                "message cursor expired for the retained window",
            ),
        );
    }
    let mut page: Vec<usize> = Vec::new();
    let mut i: usize = 0;
    while i < list.len()
        invariant
            i <= list@.len(),
            forall|j: int| 0 <= j < list@.len() ==> 0 <= #[trigger] list@[j] < messages@.len(),
            page@ == after(messages@, list@, after_seq, i as int),
            forall|j: int| 0 <= j < page@.len() ==> 0 <= #[trigger] page@[j] < messages@.len(),
        decreases list.len() - i,
    {
        if messages[list[i]].seq > after_seq {
            page.push(list[i]);
        }
        i = i + 1;
    }
    let most: usize = if limit < 1 {
        1
    } else if limit > 200 {
        200
    } else {
        limit
    };
    if page.len() > most {
        page.truncate(most);
    }
    let next_seq: u64 = if page.len() > 0 {
        messages[page[page.len() - 1]].seq
    } else {
        after_seq
    };
    Ok(MessagePage { messages: page, next_seq, retained_from_seq })
}

/// What asking for the newest messages comes to.
pub open spec fn recent(
    messages: Seq<WorkMessage>,
    paths: Seq<Option<String>>,
    scope: MessageScope,
    inbox: Option<Seq<char>>,
    outbox: Option<Seq<char>>,
    limit: usize,
    retained: usize,
    page: MessagePage,
) -> bool {
    let list = listed(messages, paths, scope, inbox, outbox);
    &&& page.messages@ == last_of(list, clamped(limit, retained))
    &&& page.next_seq == last_seq(messages, page.messages@, 0)
    &&& page.retained_from_seq == retained_from(messages, list)
}

/// The newest messages in the order of their numbers, at most `retained`.
pub fn list_recent_messages(
    messages: &Vec<WorkMessage>,
    paths: &Vec<Option<String>>,
    scope: &MessageScope,
    inbox_agent_id: Option<&str>,
    outbox_actor: Option<&str>,
    limit: usize,
    retained: usize,
) -> (page: MessagePage)
    requires
        paths@.len() == messages@.len(),
        retained >= 1,
    ensures
        recent(
            messages@,
            paths@,
            *scope,
            text_of(inbox_agent_id),
            text_of(outbox_actor),
            limit,
            retained,
            page,
        ),
{
    let list: Vec<usize> = collect(messages, paths, scope, inbox_agent_id, outbox_actor);
    let retained_from_seq: u64 = if list.len() > 0 {
        messages[list[0]].seq
    } else {
        1
    };
    let most: usize = if limit < 1 {
        1
    } else if limit > retained {
        retained
    } else {
        limit
    };
    let skip: usize = if list.len() > most {
        list.len() - most
    } else {
        0
    };
    let mut page: Vec<usize> = Vec::new();
    let mut i: usize = skip;
    proof {
        assert(page@ =~= list@.subrange(skip as int, skip as int));
    }
    while i < list.len()
        invariant
            skip <= i <= list@.len(),
            page@ == list@.subrange(skip as int, i as int),
        decreases list.len() - i,
    {
        page.push(list[i]);
        i = i + 1;
        proof {
            assert(page@ =~= list@.subrange(skip as int, i as int));
        }
    }
    proof {
        assert(page@ =~= last_of(list@, most));
    }
    let next_seq: u64 = if page.len() > 0 {
        proof {
            assert(page@.last() == list@[list@.len() - 1]);
        }
        messages[page[page.len() - 1]].seq
    } else {
        0
    };
    MessagePage { messages: page, next_seq, retained_from_seq }
}

/// All positions of a list.
pub open spec fn all_positions(n: nat) -> Seq<usize> {
    Seq::new(n, |i: int| i as usize)
}

/// The messages that are beyond the number that is kept.
pub open spec fn pruned(
    messages: Seq<WorkMessage>,
    retained: usize,
    list: Seq<usize>,
) -> bool {
    list == if messages.len() <= retained {
        Seq::<usize>::empty()
    } else {
        by_numbers(
            counts(seqs_at(messages, all_positions(messages.len()))),
            zeros(messages.len()),
        ).take(messages.len() - retained)
    }
}

/// The messages that are beyond the number that is kept, the oldest first.
pub fn messages_to_prune(messages: &Vec<WorkMessage>, retained: usize) -> (list: Vec<usize>)
    ensures
        pruned(
            messages@,
            retained,
            list@,
        ),
{
    if messages.len() <= retained {
        let none: Vec<usize> = Vec::new();
        proof {
            assert(none@ =~= Seq::<usize>::empty());
        }
        return none;
    }
    let mut seqs: Vec<u64> = Vec::new();
    let mut i: usize = 0;
    while i < messages.len()
        invariant
            i <= messages@.len(),
            seqs@.len() == i,
            forall|j: int| 0 <= j < i ==> #[trigger] seqs@[j] == messages@[j].seq,
        decreases messages.len() - i,
    {
        seqs.push(messages[i].seq);
        i = i + 1;
    }
    proof {
        assert(seqs@ =~= seqs_at(messages@, all_positions(messages@.len())));
    }
    let mut list: Vec<usize> = lowest_first(&seqs);
    list.truncate(messages.len() - retained);
    list
}

proof fn by_seq_is_sorted(messages: Seq<WorkMessage>, at: Seq<usize>, i: int, j: int)
    requires
        at.len() <= usize::MAX,
        0 <= i <= j < by_seq(messages, at).len(),
    ensures
        messages[by_seq(messages, at)[i] as int].seq <= messages[by_seq(messages, at)[j] as int].seq,
{
    let seqs = seqs_at(messages, at);
    let keys = number_ranks(counts(seqs), zeros(at.len()));
    every_list_has_an_order(keys);
    let order = by_numbers(counts(seqs), zeros(at.len()));
    assert(is_order(keys, order));
    if i < j {
        assert(listed_before(keys, order[i] as int, order[j] as int));
        assert(keys[order[i] as int].first =~= keys[order[j] as int].first);
        crate::text::text_lt_irreflexive(Seq::<char>::empty());
    }
}

proof fn wanted_is_short(
    messages: Seq<WorkMessage>,
    paths: Seq<Option<String>>,
    scope: MessageScope,
    inbox: Option<Seq<char>>,
    outbox: Option<Seq<char>>,
    n: int,
)
    requires
        0 <= n,
    ensures
        wanted(messages, paths, scope, inbox, outbox, n).len() <= n,
    decreases n,
{
    if n > 0 {
        wanted_is_short(messages, paths, scope, inbox, outbox, n - 1);
    }
}

proof fn later_part_is_sorted(messages: Seq<WorkMessage>, at: Seq<usize>, after_seq: u64, n: int)
    requires
        at.len() <= usize::MAX,
        0 <= n <= by_seq(messages, at).len(),
    ensures
        ({
            let l = after(messages, by_seq(messages, at), after_seq, n);
            &&& forall|i: int| 0 <= i < l.len() ==> messages[(#[trigger] l[i]) as int].seq > after_seq
            &&& forall|i: int, j: int|
                0 <= i <= j < l.len() ==> messages[(#[trigger] l[i]) as int].seq <= messages[(
                #[trigger] l[j]) as int].seq
            &&& l.len() > 0 ==> n > 0 && messages[l.last() as int].seq <= messages[by_seq(
                messages,
                at,
            )[n - 1] as int].seq
        }),
    decreases n,
{
    if n > 0 {
        later_part_is_sorted(messages, at, after_seq, n - 1);
        let list = by_seq(messages, at);
        let rest = after(messages, list, after_seq, n - 1);
        let l = after(messages, list, after_seq, n);
        if n - 2 >= 0 {
            by_seq_is_sorted(messages, at, n - 2, n - 1);
        }
        assert forall|i: int, j: int| 0 <= i <= j < l.len() implies messages[(
        #[trigger] l[i]) as int].seq <= messages[(#[trigger] l[j]) as int].seq by {
            if j < rest.len() {
                assert(rest[i] == l[i] && rest[j] == l[j]);
            } else if i < rest.len() {
                assert(rest[i] == l[i]);
                assert(messages[rest[i] as int].seq <= messages[rest[rest.len() - 1] as int].seq);
            }
        }
        assert forall|i: int| 0 <= i < l.len() implies messages[(#[trigger] l[i]) as int].seq
            > after_seq by {
            if i < rest.len() {
                assert(rest[i] == l[i]);
            }
        }
    }
}

/// Pages neither repeat nor skip: what a page shows comes after the reader's
/// place, and what it leaves for later does not come before its end.
pub proof fn pages_follow_on(
    messages: Seq<WorkMessage>,
    paths: Seq<Option<String>>,
    scope: MessageScope,
    inbox: Option<Seq<char>>,
    outbox: Option<Seq<char>>,
    after_seq: u64,
    limit: usize,
    i: int,
)
    requires
        messages.len() <= usize::MAX,
        ({
            let list = listed(messages, paths, scope, inbox, outbox);
            0 <= i < after(messages, list, after_seq, list.len() as int).len()
        }),
    ensures
        ({
            let list = listed(messages, paths, scope, inbox, outbox);
            let all = after(messages, list, after_seq, list.len() as int);
            let page = at_most(all, clamped(limit, 200));
            &&& messages[all[i] as int].seq > after_seq
            &&& i < page.len() ==> messages[page[i] as int].seq <= last_seq(
                messages,
                page,
                after_seq,
            )
            &&& i >= page.len() ==> messages[all[i] as int].seq >= last_seq(
                messages,
                page,
                after_seq,
            )
        }),
{
    let at = wanted(messages, paths, scope, inbox, outbox, messages.len() as int);
    wanted_is_short(messages, paths, scope, inbox, outbox, messages.len() as int);
    let list = listed(messages, paths, scope, inbox, outbox);
    later_part_is_sorted(messages, at, after_seq, list.len() as int);
    let all = after(messages, list, after_seq, list.len() as int);
    let page = at_most(all, clamped(limit, 200));
    assert(page.last() == all[page.len() - 1]);
    if i < page.len() {
        assert(page[i] == all[i]);
        assert(messages[all[i] as int].seq <= messages[all[page.len() - 1] as int].seq);
    } else {
        assert(messages[all[page.len() - 1] as int].seq <= messages[all[i] as int].seq);
    }
}

/// The reader may see the message: it is of the reader's session and workspace,
/// goes to the inbox asked for, and comes from the actor asked for.
pub open spec fn may_be_read(
    m: WorkMessage,
    path: Option<String>,
    scope: MessageScope,
    inbox: Option<Seq<char>>,
    outbox: Option<Seq<char>>,
) -> bool {
    &&& m.session_id == scope.session_id
    &&& m.workspace@ == scope.workspace@ || (path is Some && scope.path is Some && path->0@
        == scope.path->0@)
    &&& inbox is Some ==> m.to_agent_id is Some && m.to_agent_id->0@ == inbox->0
    &&& outbox is Some ==> m.from_actor@ == outbox->0 || (m.from_agent_id is Some
        && m.from_agent_id->0@ == outbox->0)
}

proof fn wanted_is_exact(
    messages: Seq<WorkMessage>,
    paths: Seq<Option<String>>,
    scope: MessageScope,
    inbox: Option<Seq<char>>,
    outbox: Option<Seq<char>>,
    n: int,
)
    requires
        0 <= n <= messages.len() <= usize::MAX,
    ensures
        wanted(messages, paths, scope, inbox, outbox, n).len() <= n,
        forall|i: int|
            0 <= i < wanted(messages, paths, scope, inbox, outbox, n).len() ==> (
            #[trigger] wanted(messages, paths, scope, inbox, outbox, n)[i]) < n && may_be_read(
                messages[wanted(messages, paths, scope, inbox, outbox, n)[i] as int],
                paths[wanted(messages, paths, scope, inbox, outbox, n)[i] as int],
                scope,
                inbox,
                outbox,
            ),
        forall|k: int|
            0 <= k < n && may_be_read(#[trigger] messages[k], paths[k], scope, inbox, outbox)
                ==> wanted(messages, paths, scope, inbox, outbox, n).contains(k as usize),
    decreases n,
{
    if n > 0 {
        wanted_is_exact(messages, paths, scope, inbox, outbox, n - 1);
        let rest = wanted(messages, paths, scope, inbox, outbox, n - 1);
        let all = wanted(messages, paths, scope, inbox, outbox, n);
        assert(is_wanted(messages[n - 1], paths[n - 1], scope, inbox, outbox) == may_be_read(
            messages[n - 1],
            paths[n - 1],
            scope,
            inbox,
            outbox,
        ));
        assert forall|k: int|
            0 <= k < n && may_be_read(
                #[trigger] messages[k],
                paths[k],
                scope,
                inbox,
                outbox,
            ) implies all.contains(k as usize) by {
            if k == n - 1 {
                assert(all.last() == k as usize);
            } else {
                assert(rest.contains(k as usize));
                let j = choose|j: int| 0 <= j < rest.len() && rest[j] == k as usize;
                assert(all[j] == k as usize);
            }
        }
    }
}

proof fn listed_is_exact(
    messages: Seq<WorkMessage>,
    paths: Seq<Option<String>>,
    scope: MessageScope,
    inbox: Option<Seq<char>>,
    outbox: Option<Seq<char>>,
)
    requires
        messages.len() <= usize::MAX,
    ensures
        forall|i: int|
            0 <= i < listed(messages, paths, scope, inbox, outbox).len() ==> (
            #[trigger] listed(messages, paths, scope, inbox, outbox)[i]) < messages.len()
                && may_be_read(
                messages[listed(messages, paths, scope, inbox, outbox)[i] as int],
                paths[listed(messages, paths, scope, inbox, outbox)[i] as int],
                scope,
                inbox,
                outbox,
            ),
        forall|k: int|
            0 <= k < messages.len() && may_be_read(
                #[trigger] messages[k],
                paths[k],
                scope,
                inbox,
                outbox,
            ) ==> listed(messages, paths, scope, inbox, outbox).contains(k as usize),
        forall|i: int, j: int|
            0 <= i <= j < listed(messages, paths, scope, inbox, outbox).len() ==> messages[(
            #[trigger] listed(messages, paths, scope, inbox, outbox)[i]) as int].seq <= messages[(
            #[trigger] listed(messages, paths, scope, inbox, outbox)[j]) as int].seq,
{
    let n = messages.len() as int;
    wanted_is_exact(messages, paths, scope, inbox, outbox, n);
    let at = wanted(messages, paths, scope, inbox, outbox, n);
    let list = listed(messages, paths, scope, inbox, outbox);
    let keys = number_ranks(counts(seqs_at(messages, at)), zeros(at.len()));
    every_list_has_an_order(keys);
    let order = by_numbers(counts(seqs_at(messages, at)), zeros(at.len()));
    assert forall|i: int| 0 <= i < list.len() implies (#[trigger] list[i]) < messages.len()
        && may_be_read(messages[list[i] as int], paths[list[i] as int], scope, inbox, outbox) by {
        assert(list[i] == at[order[i] as int]);
    }
    assert forall|i: int, j: int| 0 <= i <= j < list.len() implies messages[(
    #[trigger] list[i]) as int].seq <= messages[(#[trigger] list[j]) as int].seq by {
        by_seq_is_sorted(messages, at, i, j);
    }
    assert forall|k: int|
        0 <= k < messages.len() && may_be_read(
            #[trigger] messages[k],
            paths[k],
            scope,
            inbox,
            outbox,
        ) implies list.contains(k as usize) by {
        assert(at.contains(k as usize));
        let j = choose|j: int| 0 <= j < at.len() && at[j] == k as usize;
        assert(order.contains(j as usize));
        let m = choose|m: int| 0 <= m < order.len() && order[m] == j as usize;
        assert(list[m] == at[order[m] as int]);
    }
}

proof fn after_is_exact(messages: Seq<WorkMessage>, list: Seq<usize>, after_seq: u64, n: int)
    requires
        0 <= n <= list.len(),
    ensures
        forall|i: int|
            0 <= i < after(messages, list, after_seq, n).len() ==> list.contains(
                #[trigger] after(messages, list, after_seq, n)[i],
            ),
        forall|k: int|
            0 <= k < n && messages[(#[trigger] list[k]) as int].seq > after_seq ==> after(
                messages,
                list,
                after_seq,
                n,
            ).contains(list[k]),
    decreases n,
{
    if n > 0 {
        after_is_exact(messages, list, after_seq, n - 1);
        let rest = after(messages, list, after_seq, n - 1);
        let all = after(messages, list, after_seq, n);
        assert forall|i: int| 0 <= i < all.len() implies list.contains(#[trigger] all[i]) by {
            if i < rest.len() {
                assert(all[i] == rest[i]);
            } else {
                assert(list[n - 1] == all[i]);
            }
        }
        assert forall|k: int| 0 <= k < n && messages[(
        #[trigger] list[k]) as int].seq > after_seq implies all.contains(list[k]) by {
            if k == n - 1 {
                assert(all.last() == list[k]);
            } else {
                assert(rest.contains(list[k]));
                let j = choose|j: int| 0 <= j < rest.len() && rest[j] == list[k];
                assert(all[j] == list[k]);
            }
        }
    }
}

/// A page shows messages that the reader may see, after the reader's place and
/// in the order of their numbers, no more than the limit and never more than
/// 200. What it leaves out comes after all that it shows, and only a full page
/// leaves anything out.
pub proof fn pages_show_what_follows(
    messages: Seq<WorkMessage>,
    paths: Seq<Option<String>>,
    scope: MessageScope,
    after_seq: u64,
    inbox: Option<Seq<char>>,
    outbox: Option<Seq<char>>,
    limit: usize,
    r: Result<MessagePage, OrchError>,
)
    requires
        paging(messages, paths, scope, after_seq, inbox, outbox, limit, r),
        messages.len() <= usize::MAX,
        r is Ok,
    ensures
        r->Ok_0.messages@.len() <= 200,
        limit > 0 ==> r->Ok_0.messages@.len() <= limit,
        forall|i: int|
            0 <= i < r->Ok_0.messages@.len() ==> {
                let k = #[trigger] r->Ok_0.messages@[i] as int;
                &&& k < messages.len()
                &&& may_be_read(messages[k], paths[k], scope, inbox, outbox)
                &&& after_seq < messages[k].seq <= r->Ok_0.next_seq
            },
        forall|i: int, j: int|
            0 <= i <= j < r->Ok_0.messages@.len() ==> messages[(
            #[trigger] r->Ok_0.messages@[i]) as int].seq <= messages[(
            #[trigger] r->Ok_0.messages@[j]) as int].seq,
        forall|k: int|
            0 <= k < messages.len() && may_be_read(
                #[trigger] messages[k],
                paths[k],
                scope,
                inbox,
                outbox,
            ) && messages[k].seq > after_seq && !r->Ok_0.messages@.contains(k as usize)
                ==> messages[k].seq >= r->Ok_0.next_seq && (r->Ok_0.messages@.len() == 200
                || r->Ok_0.messages@.len() == limit || (limit == 0 && r->Ok_0.messages@.len()
                == 1)),
        r->Ok_0.messages@.len() == 0 ==> r->Ok_0.next_seq == after_seq,
        r->Ok_0.messages@.len() > 0 ==> r->Ok_0.next_seq
            == messages[r->Ok_0.messages@.last() as int].seq,
{
    let list = listed(messages, paths, scope, inbox, outbox);
    let n = list.len() as int;
    let all = after(messages, list, after_seq, n);
    let page = r->Ok_0.messages@;
    let at = wanted(messages, paths, scope, inbox, outbox, messages.len() as int);
    listed_is_exact(messages, paths, scope, inbox, outbox);
    wanted_is_short(messages, paths, scope, inbox, outbox, messages.len() as int);
    after_is_exact(messages, list, after_seq, n);
    later_part_is_sorted(messages, at, after_seq, n);
    assert forall|i: int| 0 <= i < page.len() implies {
        let k = #[trigger] page[i] as int;
        &&& k < messages.len()
        &&& may_be_read(messages[k], paths[k], scope, inbox, outbox)
        &&& after_seq < messages[k].seq <= r->Ok_0.next_seq
    } by {
        assert(page[i] == all[i]);
        assert(list.contains(all[i]));
        let m = choose|m: int| 0 <= m < list.len() && list[m] == all[i];
        assert(page.last() == all[page.len() - 1]);
    }
    assert forall|i: int, j: int| 0 <= i <= j < page.len() implies messages[(
    #[trigger] page[i]) as int].seq <= messages[(#[trigger] page[j]) as int].seq by {
        assert(page[i] == all[i] && page[j] == all[j]);
    }
    assert forall|k: int|
        0 <= k < messages.len() && may_be_read(
            #[trigger] messages[k],
            paths[k],
            scope,
            inbox,
            outbox,
        ) && messages[k].seq > after_seq && !page.contains(k as usize) implies messages[k].seq
        >= r->Ok_0.next_seq && (page.len() == 200 || page.len() == limit || (limit == 0
        && page.len() == 1)) by {
        assert(list.contains(k as usize));
        let m = choose|m: int| 0 <= m < list.len() && list[m] == k as usize;
        assert(all.contains(list[m]));
        let j = choose|j: int| 0 <= j < all.len() && all[j] == k as usize;
        if j < page.len() {
            assert(page[j] == k as usize);
        }
        assert(page.last() == all[page.len() - 1]);
        assert(messages[all[page.len() - 1] as int].seq <= messages[all[j] as int].seq);
    }
}

/// A reader is told that its place is lost exactly where what is kept begins
/// beyond the message that follows it.
pub proof fn lost_places_are_told(
    messages: Seq<WorkMessage>,
    paths: Seq<Option<String>>,
    scope: MessageScope,
    after_seq: u64,
    inbox: Option<Seq<char>>,
    outbox: Option<Seq<char>>,
    limit: usize,
    r: Result<MessagePage, OrchError>,
)
    requires
        paging(messages, paths, scope, after_seq, inbox, outbox, limit, r),
        messages.len() <= usize::MAX,
    ensures
        r is Err ==> {
            &&& r->Err_0.code is CursorExpired
            &&& after_seq > 0
            &&& forall|k: int|
                0 <= k < messages.len() && may_be_read(
                    #[trigger] messages[k],
                    paths[k],
                    scope,
                    inbox,
                    outbox,
                ) ==> messages[k].seq > after_seq + 1
        },
        r is Ok && after_seq > 0 && (exists|k: int|
            0 <= k < messages.len() && may_be_read(
                #[trigger] messages[k],
                paths[k],
                scope,
                inbox,
                outbox,
            )) ==> exists|k: int|
            0 <= k < messages.len() && may_be_read(
                #[trigger] messages[k],
                paths[k],
                scope,
                inbox,
                outbox,
            ) && messages[k].seq <= after_seq + 1,
{
    let list = listed(messages, paths, scope, inbox, outbox);
    listed_is_exact(messages, paths, scope, inbox, outbox);
    assert forall|k: int|
        0 <= k < messages.len() && may_be_read(
            #[trigger] messages[k],
            paths[k],
            scope,
            inbox,
            outbox,
        ) implies list.len() > 0 && messages[k].seq >= messages[list[0] as int].seq by {
        assert(list.contains(k as usize));
        let m = choose|m: int| 0 <= m < list.len() && list[m] == k as usize;
        assert(messages[list[0] as int].seq <= messages[list[m] as int].seq);
    }
    if list.len() > 0 {
        assert(may_be_read(
            messages[list[0] as int],
            paths[list[0] as int],
            scope,
            inbox,
            outbox,
        ));
    }
}

/// The newest messages are those that come after all that are left out, in the
/// order of their numbers.
pub proof fn recent_pages_show_the_newest(
    messages: Seq<WorkMessage>,
    paths: Seq<Option<String>>,
    scope: MessageScope,
    inbox: Option<Seq<char>>,
    outbox: Option<Seq<char>>,
    limit: usize,
    retained: usize,
    page: MessagePage,
)
    requires
        recent(messages, paths, scope, inbox, outbox, limit, retained, page),
        messages.len() <= usize::MAX,
        retained >= 1,
    ensures
        page.messages@.len() <= retained,
        limit > 0 ==> page.messages@.len() <= limit,
        forall|i: int|
            0 <= i < page.messages@.len() ==> {
                let k = #[trigger] page.messages@[i] as int;
                k < messages.len() && may_be_read(messages[k], paths[k], scope, inbox, outbox)
            },
        forall|i: int, j: int|
            0 <= i <= j < page.messages@.len() ==> messages[(
            #[trigger] page.messages@[i]) as int].seq <= messages[(
            #[trigger] page.messages@[j]) as int].seq,
        forall|i: int, k: int|
            0 <= i < page.messages@.len() && 0 <= k < messages.len() && may_be_read(
                #[trigger] messages[k],
                paths[k],
                scope,
                inbox,
                outbox,
            ) && !page.messages@.contains(k as usize) ==> messages[k].seq <= messages[(
            #[trigger] page.messages@[i]) as int].seq,
{
    let list = listed(messages, paths, scope, inbox, outbox);
    let shown = page.messages@;
    let skip = list.len() - shown.len();
    listed_is_exact(messages, paths, scope, inbox, outbox);
    assert forall|i: int| 0 <= i < shown.len() implies #[trigger] shown[i] == list[skip + i] by {}
    assert forall|i: int, j: int| 0 <= i <= j < shown.len() implies messages[(
    #[trigger] shown[i]) as int].seq <= messages[(#[trigger] shown[j]) as int].seq by {
        assert(shown[i] == list[skip + i] && shown[j] == list[skip + j]);
    }
    assert forall|i: int, k: int|
        0 <= i < shown.len() && 0 <= k < messages.len() && may_be_read(
            #[trigger] messages[k],
            paths[k],
            scope,
            inbox,
            outbox,
        ) && !shown.contains(k as usize) implies messages[k].seq <= messages[(
    #[trigger] shown[i]) as int].seq by {
        assert(list.contains(k as usize));
        let m = choose|m: int| 0 <= m < list.len() && list[m] == k as usize;
        if m >= skip {
            assert(shown[m - skip] == k as usize);
        }
        assert(shown[i] == list[skip + i]);
        assert(messages[list[m] as int].seq <= messages[list[skip + i] as int].seq);
    }
}

/// What is pruned has lower numbers than what is kept, and as much is kept as may
/// be.
pub proof fn the_oldest_messages_are_pruned(
    messages: Seq<WorkMessage>,
    retained: usize,
    list: Seq<usize>,
)
    requires
        pruned(messages, retained, list),
        messages.len() <= usize::MAX,
    ensures
        messages.len() <= retained ==> list.len() == 0,
        messages.len() > retained ==> list.len() == messages.len() - retained,
        forall|i: int| 0 <= i < list.len() ==> (#[trigger] list[i]) < messages.len(),
        forall|i: int, k: usize|
            0 <= i < list.len() && k < messages.len() && !#[trigger] list.contains(k)
                ==> messages[(#[trigger] list[i]) as int].seq <= messages[k as int].seq,
{
    let at = all_positions(messages.len());
    let major = counts(seqs_at(messages, at));
    let keys = number_ranks(major, zeros(messages.len()));
    let order = by_numbers(major, zeros(messages.len()));
    numbers_are_ordered(major, zeros(messages.len()));
    if messages.len() > retained {
        assert forall|i: int, k: usize|
            0 <= i < list.len() && k < messages.len() && !#[trigger] list.contains(
                k,
            ) implies messages[(#[trigger] list[i]) as int].seq <= messages[k as int].seq by {
            assert(order.contains(k));
            let m = choose|m: int| 0 <= m < order.len() && order[m] == k;
            if m < list.len() {
                assert(list[m] == k);
            }
            assert(list[i] == order[i]);
            assert(listed_before(keys, order[i] as int, order[m] as int));
            assert(at[order[i] as int] == order[i] && at[order[m] as int] == order[m]);
        }
    }
}

/// A message that is sent gets the next number and is otherwise as it was
/// written; it names only agents that act in its session and workspace.
pub proof fn sent_messages_are_numbered(
    message: WorkMessage,
    facts: SendFacts,
    r: Result<WorkMessage, OrchError>,
)
    requires
        sent(r, message, facts),
        facts.last_seq < u64::MAX,
    ensures
        r is Ok ==> {
            &&& facts.refusal is None
            &&& r->Ok_0.seq == facts.last_seq + 1
            &&& r->Ok_0.body == message.body
            &&& r->Ok_0.message_id == message.message_id
            &&& r->Ok_0.to_agent_id == message.to_agent_id
            &&& r->Ok_0.from_actor == message.from_actor
            &&& r->Ok_0.session_id == message.session_id
            &&& facts.from_agent is Some ==> facts.from_agent->0.record is Some
            &&& facts.to_agent is Some ==> facts.to_agent->0.record is Some
        },
        facts.refusal is None && facts.from_agent is None && facts.to_agent is None ==> r is Ok,
        facts.refusal is Some ==> r == Err::<WorkMessage, OrchError>(facts.refusal->0),
{
}

/// A message sent again under the same identity is answered with the one on
/// record if it says the same, and refused if it says anything else. Either way
/// nothing is written.
pub proof fn messages_are_sent_once(
    message: WorkMessage,
    existing: WorkMessage,
    facts: SendFacts,
    r: (Result<WorkMessage, OrchError>, bool),
)
    requires
        sent_once(message, Some(existing), facts, r),
    ensures
        !r.1,
        r.0 is Ok ==> r.0 == Ok::<WorkMessage, OrchError>(existing) && existing.body@
            == message.body@ && existing.kind@ == message.kind@ && existing.from_actor@
            == message.from_actor@ && existing.session_id == message.session_id
            && existing.workspace@ == message.workspace@ && existing.expires_at
            == message.expires_at,
        r.0 is Err ==> r.0->Err_0.code is Conflict,
        existing.body@ != message.body@ ==> r.0 is Err,
        existing == message ==> r.0 is Ok,
{
}

/// The first acknowledgement stands: a later one changes nothing, whoever makes
/// it. Nobody acknowledges a message outside its scope.
pub proof fn the_first_acknowledgement_stands(
    message: WorkMessage,
    path: Option<String>,
    scope: Option<MessageScope>,
    actor: Seq<char>,
    now: i128,
    r: Result<(WorkMessage, bool), OrchError>,
)
    requires
        acked(Some(message), path, scope, actor, now, r),
    ensures
        r is Ok && message.acked_at is Some ==> r->Ok_0.0 == message && !r->Ok_0.1,
        r is Ok && message.acked_at is None ==> r->Ok_0.0.acked_at == Some(now) && holds(
            r->Ok_0.0.acked_by,
            actor,
        ) && r->Ok_0.1,
        r is Ok ==> r->Ok_0.0.body == message.body && r->Ok_0.0.seq == message.seq,
        scope is Some && message.session_id != scope->0.session_id ==> r is Err
            && r->Err_0.code is ForbiddenScope,
        scope is None ==> r is Ok,
        scope is Some && message.session_id == scope->0.session_id && message.workspace@
            == scope->0.workspace@ ==> r is Ok,
{
}

} // verus!
