//! The coordinator of the interactive emoji (SAS) device-verification
//! handshake.
//!
//! The caller delivers protocol events one at a time, in the order the
//! transport delivers them, and performs the actions returned for each. The
//! human confirmation runs off the event path: a `Prompt` action hands the
//! transaction to a confirmation worker, whose decision comes back later as an
//! `Answered` event.
//!
//! Prompts are serialized: at most one transaction awaits the operator at any
//! time. A transaction whose keys arrive while another prompt is open waits in
//! `KeysExchanged` and is prompted, in table order, once the open prompt is
//! resolved.

use vstd::prelude::*;

verus! {

/// Where one verification conversation stands. A conversation that was
/// cancelled or completed leaves the table.
#[derive(Clone, Copy, Debug, PartialEq, Eq, Structural)]
pub enum Phase {
    Requested,
    Started,
    KeysExchanged,
    AwaitingHumanConfirmation,
    Confirmed,
}

/// One live conversation, identified by the counterparty user and the
/// transaction id.
pub struct Transaction {
    pub user: String,
    pub device: String,
    pub id: String,
    pub phase: Phase,
}

pub struct TransactionView {
    pub user: Seq<char>,
    pub device: Seq<char>,
    pub id: Seq<char>,
    pub phase: Phase,
}

impl View for Transaction {
    type V = TransactionView;

    open spec fn view(&self) -> TransactionView {
        TransactionView { user: self.user@, device: self.device@, id: self.id@, phase: self.phase }
    }
}

/// An inbound protocol event, reduced to what the decisions read. The flags
/// say what the protocol layer reported when the caller looked the
/// transaction up: `known`, that it holds the verification request; `sas`,
/// that it holds an emoji verification for it; `finished`, that this
/// verification reports itself done.
pub enum Event {
    Request { user: String, device: String, id: String, known: bool },
    Started { user: String, device: String, id: String, sas: bool },
    Key { user: String, id: String, sas: bool },
    Done { user: String, id: String, finished: bool },
    /// The confirmation worker's decision for a prompted transaction.
    Answered { user: String, id: String, confirmed: bool },
    /// The confirmation was sent to the protocol layer.
    ConfirmSent { user: String, id: String, finished: bool },
}

pub enum EventView {
    Request { user: Seq<char>, device: Seq<char>, id: Seq<char>, known: bool },
    Started { user: Seq<char>, device: Seq<char>, id: Seq<char>, sas: bool },
    Key { user: Seq<char>, id: Seq<char>, sas: bool },
    Done { user: Seq<char>, id: Seq<char>, finished: bool },
    Answered { user: Seq<char>, id: Seq<char>, confirmed: bool },
    ConfirmSent { user: Seq<char>, id: Seq<char>, finished: bool },
}

impl View for Event {
    type V = EventView;

    open spec fn view(&self) -> EventView {
        match self {
            Event::Request { user, device, id, known } => EventView::Request {
                user: user@,
                device: device@,
                id: id@,
                known: *known,
            },
            Event::Started { user, device, id, sas } => EventView::Started {
                user: user@,
                device: device@,
                id: id@,
                sas: *sas,
            },
            Event::Key { user, id, sas } => EventView::Key { user: user@, id: id@, sas: *sas },
            Event::Done { user, id, finished } => EventView::Done {
                user: user@,
                id: id@,
                finished: *finished,
            },
            Event::Answered { user, id, confirmed } => EventView::Answered {
                user: user@,
                id: id@,
                confirmed: *confirmed,
            },
            Event::ConfirmSent { user, id, finished } => EventView::ConfirmSent {
                user: user@,
                id: id@,
                finished: *finished,
            },
        }
    }
}

/// What the caller must do in answer to an event.
#[derive(Debug, PartialEq, Eq)]
pub enum Action {
    /// Accept the incoming verification request.
    AcceptRequest { user: String, id: String },
    /// Show the counterpart's device and accept the emoji comparison.
    AcceptSas { user: String, device: String, id: String },
    /// Hand the transaction to the confirmation worker.
    Prompt { user: String, id: String },
    /// Confirm that the emoji matched.
    Confirm { user: String, id: String },
    /// Cancel the verification.
    Cancel { user: String, id: String },
    /// Print the summary of a successful verification.
    ReportSuccess { user: String, device: String, id: String },
}

pub enum ActionView {
    AcceptRequest { user: Seq<char>, id: Seq<char> },
    AcceptSas { user: Seq<char>, device: Seq<char>, id: Seq<char> },
    Prompt { user: Seq<char>, id: Seq<char> },
    Confirm { user: Seq<char>, id: Seq<char> },
    Cancel { user: Seq<char>, id: Seq<char> },
    ReportSuccess { user: Seq<char>, device: Seq<char>, id: Seq<char> },
}

impl View for Action {
    type V = ActionView;

    open spec fn view(&self) -> ActionView {
        match self {
            Action::AcceptRequest { user, id } => ActionView::AcceptRequest { user: user@, id: id@ },
            Action::AcceptSas { user, device, id } => ActionView::AcceptSas {
                user: user@,
                device: device@,
                id: id@,
            },
            Action::Prompt { user, id } => ActionView::Prompt { user: user@, id: id@ },
            Action::Confirm { user, id } => ActionView::Confirm { user: user@, id: id@ },
            Action::Cancel { user, id } => ActionView::Cancel { user: user@, id: id@ },
            Action::ReportSuccess { user, device, id } => ActionView::ReportSuccess {
                user: user@,
                device: device@,
                id: id@,
            },
        }
    }
}

pub open spec fn action_views(a: Seq<Action>) -> Seq<ActionView> {
    a.map_values(|x: Action| x@)
}

pub open spec fn has_key(t: TransactionView, user: Seq<char>, id: Seq<char>) -> bool {
    t.user == user && t.id == id
}

/// No two entries of the table share a key.
pub open spec fn keys_unique(s: Seq<TransactionView>) -> bool {
    forall|i: int, j: int|
        0 <= i < s.len() && 0 <= j < s.len() && #[trigger] has_key(s[i], s[j].user, s[j].id)
            ==> i == j
}

pub open spec fn awaiting(t: TransactionView) -> bool {
    t.phase == Phase::AwaitingHumanConfirmation
}

pub open spec fn waiting(t: TransactionView) -> bool {
    t.phase == Phase::KeysExchanged
}

/// At most one transaction has its prompt open.
pub open spec fn single_prompt(s: Seq<TransactionView>) -> bool {
    forall|i: int, j: int|
        0 <= i < s.len() && 0 <= j < s.len() && awaiting(#[trigger] s[i]) && awaiting(
            #[trigger] s[j],
        ) ==> i == j
}

pub open spec fn prompt_open(s: Seq<TransactionView>) -> bool {
    exists|i: int| 0 <= i < s.len() && awaiting(#[trigger] s[i])
}

pub open spec fn some_waiting(s: Seq<TransactionView>) -> bool {
    exists|i: int| 0 <= i < s.len() && waiting(#[trigger] s[i])
}

/// The invariant of the table: keys are unique, at most one prompt is open,
/// and no transaction waits for a prompt while none is open.
pub open spec fn table_wf(s: Seq<TransactionView>) -> bool {
    &&& keys_unique(s)
    &&& single_prompt(s)
    &&& (some_waiting(s) ==> prompt_open(s))
}

/// The position of the transaction with this key, if the table holds it.
pub open spec fn find(s: Seq<TransactionView>, user: Seq<char>, id: Seq<char>) -> Option<int> {
    if exists|i: int| 0 <= i < s.len() && #[trigger] has_key(s[i], user, id) {
        Some(choose|i: int| 0 <= i < s.len() && #[trigger] has_key(s[i], user, id))
    } else {
        None
    }
}

pub open spec fn first_waiting_at(s: Seq<TransactionView>, i: int) -> bool {
    &&& 0 <= i < s.len()
    &&& waiting(s[i])
    &&& forall|j: int| 0 <= j < i ==> !waiting(#[trigger] s[j])
}

/// The earliest transaction of the table that waits for a prompt.
pub open spec fn first_waiting(s: Seq<TransactionView>) -> Option<int> {
    if exists|i: int| #[trigger] first_waiting_at(s, i) {
        Some(choose|i: int| #[trigger] first_waiting_at(s, i))
    } else {
        None
    }
}

pub open spec fn with_phase(t: TransactionView, p: Phase) -> TransactionView {
    TransactionView { phase: p, ..t }
}

pub open spec fn unchanged(s: Seq<TransactionView>) -> (Seq<TransactionView>, Seq<ActionView>) {
    (s, Seq::empty())
}

/// Once a prompt is resolved, the next waiting transaction (if any) gets it.
pub open spec fn promote_next(s: Seq<TransactionView>, acts: Seq<ActionView>) -> (
    Seq<TransactionView>,
    Seq<ActionView>,
) {
    match first_waiting(s) {
        Some(j) => (
            s.update(j, with_phase(s[j], Phase::AwaitingHumanConfirmation)),
            acts.push(ActionView::Prompt { user: s[j].user, id: s[j].id }),
        ),
        None => (s, acts),
    }
}

/// A confirmed transaction that the protocol reports done is reported and
/// leaves the table.
pub open spec fn finish(s: Seq<TransactionView>, user: Seq<char>, id: Seq<char>, finished: bool) -> (
    Seq<TransactionView>,
    Seq<ActionView>,
) {
    match find(s, user, id) {
        Some(i) => if finished && s[i].phase == Phase::Confirmed {
            (
                s.remove(i),
                seq![ActionView::ReportSuccess { user, device: s[i].device, id }],
            )
        } else {
            unchanged(s)
        },
        None => unchanged(s),
    }
}

/// The new table and the actions for one event.
pub open spec fn next(s: Seq<TransactionView>, e: EventView) -> (
    Seq<TransactionView>,
    Seq<ActionView>,
) {
    match e {
        EventView::Request { user, device, id, known } => if known && find(s, user, id) is None {
            (
                s.push(TransactionView { user, device, id, phase: Phase::Requested }),
                seq![ActionView::AcceptRequest { user, id }],
            )
        } else {
            unchanged(s)
        },
        EventView::Started { user, device, id, sas } => if !sas {
            unchanged(s)
        } else {
            match find(s, user, id) {
                None => (
                    s.push(TransactionView { user, device, id, phase: Phase::Started }),
                    seq![ActionView::AcceptSas { user, device, id }],
                ),
                Some(i) => if s[i].phase == Phase::Requested {
                    (
                        s.update(i, TransactionView { user, device, id, phase: Phase::Started }),
                        seq![ActionView::AcceptSas { user, device, id }],
                    )
                } else {
                    unchanged(s)
                },
            }
        },
        EventView::Key { user, id, sas } => match find(s, user, id) {
            Some(i) => if sas && s[i].phase == Phase::Started {
                if prompt_open(s) {
                    (s.update(i, with_phase(s[i], Phase::KeysExchanged)), Seq::empty())
                } else {
                    (
                        s.update(i, with_phase(s[i], Phase::AwaitingHumanConfirmation)),
                        seq![ActionView::Prompt { user, id }],
                    )
                }
            } else {
                unchanged(s)
            },
            None => unchanged(s),
        },
        EventView::Answered { user, id, confirmed } => match find(s, user, id) {
            Some(i) => if awaiting(s[i]) {
                if confirmed {
                    promote_next(
                        s.update(i, with_phase(s[i], Phase::Confirmed)),
                        seq![ActionView::Confirm { user, id }],
                    )
                } else {
                    promote_next(s.remove(i), seq![ActionView::Cancel { user, id }])
                }
            } else {
                unchanged(s)
            },
            None => unchanged(s),
        },
        EventView::ConfirmSent { user, id, finished } => finish(s, user, id, finished),
        EventView::Done { user, id, finished } => finish(s, user, id, finished),
    }
}

/// The live verification conversations of this client.
pub struct Coordinator {
    txns: Vec<Transaction>,
}

impl View for Coordinator {
    type V = Seq<TransactionView>;

    closed spec fn view(&self) -> Seq<TransactionView> {
        self.txns@.map_values(|t: Transaction| t@)
    }
}

impl Coordinator {
    pub open spec fn wf(&self) -> bool {
        table_wf(self@)
    }

    /// A coordinator with no conversation in progress.
    pub fn new() -> (r: Coordinator)
        ensures
            r@ == Seq::<TransactionView>::empty(),
            r.wf(),
    {
        let r = Coordinator { txns: Vec::new() };
        assert(r@ =~= Seq::<TransactionView>::empty());
        r
    }

    /// The number of live conversations.
    pub fn len(&self) -> (r: usize)
        ensures
            r == self@.len(),
    {
        self.txns.len()
    }

    fn position(&self, user: &String, id: &String) -> (r: Option<usize>)
        requires
            self.wf(),
        ensures
            match r {
                Some(i) => find(self@, user@, id@) == Some(i as int),
                None => find(self@, user@, id@) is None,
            },
    {
        let n = self.txns.len();
        let mut i: usize = 0;
        while i < n
            invariant
                self.wf(),
                n == self.txns.len(),
                i <= n,
                forall|j: int| 0 <= j < i ==> !#[trigger] has_key(self@[j], user@, id@),
            decreases n - i,
        {
            assert(self@[i as int] == self.txns@[i as int]@);
            if self.txns[i].user == *user && self.txns[i].id == *id {
                assert(has_key(self@[i as int], user@, id@));
                proof {
                    let k = find(self@, user@, id@)->0;
                    assert(0 <= k < self@.len() && has_key(self@[k], user@, id@));
                    assert(has_key(self@[k], self@[i as int].user, self@[i as int].id));
                }
                return Some(i);
            }
            assert(!has_key(self@[i as int], user@, id@));
            i = i + 1;
        }
        None
    }

    fn prompt_is_open(&self) -> (r: bool)
        ensures
            r == prompt_open(self@),
    {
        let n = self.txns.len();
        let mut i: usize = 0;
        while i < n
            invariant
                n == self.txns.len(),
                i <= n,
                forall|j: int| 0 <= j < i ==> !awaiting(#[trigger] self@[j]),
            decreases n - i,
        {
            assert(self@[i as int] == self.txns@[i as int]@);
            if self.txns[i].phase == Phase::AwaitingHumanConfirmation {
                assert(awaiting(self@[i as int]));
                return true;
            }
            i = i + 1;
        }
        false
    }

    fn first_waiting_position(&self) -> (r: Option<usize>)
        ensures
            match r {
                Some(i) => first_waiting(self@) == Some(i as int),
                None => first_waiting(self@) is None,
            },
    {
        let n = self.txns.len();
        let mut i: usize = 0;
        while i < n
            invariant
                n == self.txns.len(),
                i <= n,
                forall|j: int| 0 <= j < i ==> !waiting(#[trigger] self@[j]),
            decreases n - i,
        {
            assert(self@[i as int] == self.txns@[i as int]@);
            if self.txns[i].phase == Phase::KeysExchanged {
                assert(first_waiting_at(self@, i as int));
                proof {
                    let k = first_waiting(self@)->0;
                    assert(first_waiting_at(self@, k));
                    if k < i {
                        assert(!waiting(self@[k]));
                    }
                    if i < k {
                        assert(!waiting(self@[i as int]));
                    }
                }
                return Some(i);
            }
            i = i + 1;
        }
        assert forall|k: int| !#[trigger] first_waiting_at(self@, k) by {
            if first_waiting_at(self@, k) {
                assert(!waiting(self@[k]));
            }
        }
        None
    }

    fn set_phase(&mut self, i: usize, p: Phase)
        requires
            i < old(self)@.len(),
        ensures
            final(self)@ == old(self)@.update(i as int, with_phase(old(self)@[i as int], p)),
    {
        self.txns[i].phase = p;
        assert(self@ =~= old(self)@.update(i as int, with_phase(old(self)@[i as int], p)));
    }

    /// Hands the prompt to the earliest waiting transaction, if any.
    fn promote(&mut self, acts: &mut Vec<Action>)
        ensures
            (final(self)@, action_views(final(acts)@)) == promote_next(
                old(self)@,
                action_views(old(acts)@),
            ),
    {
        match self.first_waiting_position() {
            Some(j) => {
                let user = self.txns[j].user.clone();
                let id = self.txns[j].id.clone();
                let ghost before = action_views(acts@);
                acts.push(Action::Prompt { user, id });
                assert(action_views(acts@) =~= before.push(
                    ActionView::Prompt { user: old(self)@[j as int].user, id: old(self)@[j as int].id },
                ));
                self.set_phase(j, Phase::AwaitingHumanConfirmation);
            },
            None => {},
        }
    }

    /// Takes a confirmed transaction that the protocol reports done out of
    /// the table, and reports it.
    fn finish(&mut self, user: String, id: String, finished: bool) -> (acts: Vec<Action>)
        requires
            old(self).wf(),
        ensures
            (final(self)@, action_views(acts@)) == finish(old(self)@, user@, id@, finished),
    {
        let mut acts: Vec<Action> = Vec::new();
        match self.position(&user, &id) {
            Some(i) => {
                if finished && self.txns[i].phase == Phase::Confirmed {
                    let t = self.txns.remove(i);
                    acts.push(Action::ReportSuccess { user, device: t.device, id });
                    assert(self@ =~= old(self)@.remove(i as int));
                }
            },
            None => {},
        }
        assert(action_views(acts@) =~= finish(old(self)@, user@, id@, finished).1);
        acts
    }

    /// Decides what to do about one protocol event, and records its effect on
    /// the conversation it concerns. An event that references no live
    /// conversation (or one the protocol layer does not know) changes nothing
    /// and asks for nothing.
    pub fn handle(&mut self, event: Event) -> (acts: Vec<Action>)
        requires
            old(self).wf(),
        ensures
            final(self).wf(),
            (final(self)@, action_views(acts@)) == next(old(self)@, event@),
    {
        proof {
            lemma_next_wf(self@, event@);
        }
        let mut acts: Vec<Action> = Vec::new();
        match event {
            Event::Request { user, device, id, known } => {
                if known && self.position(&user, &id).is_none() {
                    acts.push(Action::AcceptRequest { user: user.clone(), id: id.clone() });
                    self.txns.push(Transaction { user, device, id, phase: Phase::Requested });
                }
            },
            Event::Started { user, device, id, sas } => {
                if sas {
                    let pos = self.position(&user, &id);
                    match pos {
                        None => {
                            acts.push(
                                Action::AcceptSas {
                                    user: user.clone(),
                                    device: device.clone(),
                                    id: id.clone(),
                                },
                            );
                            self.txns.push(Transaction { user, device, id, phase: Phase::Started });
                        },
                        Some(i) => {
                            if self.txns[i].phase == Phase::Requested {
                                acts.push(
                                    Action::AcceptSas {
                                        user: user.clone(),
                                        device: device.clone(),
                                        id: id.clone(),
                                    },
                                );
                                self.txns[i] = Transaction { user, device, id, phase: Phase::Started };
                            }
                        },
                    }
                }
            },
            Event::Key { user, id, sas } => {
                match self.position(&user, &id) {
                    Some(i) => {
                        if sas && self.txns[i].phase == Phase::Started {
                            if self.prompt_is_open() {
                                self.set_phase(i, Phase::KeysExchanged);
                            } else {
                                self.set_phase(i, Phase::AwaitingHumanConfirmation);
                                acts.push(Action::Prompt { user, id });
                            }
                        }
                    },
                    None => {},
                }
            },
            Event::Answered { user, id, confirmed } => {
                match self.position(&user, &id) {
                    Some(i) => {
                        if self.txns[i].phase == Phase::AwaitingHumanConfirmation {
                            if confirmed {
                                self.set_phase(i, Phase::Confirmed);
                                acts.push(Action::Confirm { user, id });
                            } else {
                                self.txns.remove(i);
                                assert(self@ =~= old(self)@.remove(i as int));
                                acts.push(Action::Cancel { user, id });
                            }
                            self.promote(&mut acts);
                        }
                    },
                    None => {},
                }
            },
            Event::ConfirmSent { user, id, finished } => {
                acts = self.finish(user, id, finished);
            },
            Event::Done { user, id, finished } => {
                acts = self.finish(user, id, finished);
            },
        }
        assert(self@ =~= next(old(self)@, event@).0);
        assert(action_views(acts@) =~= next(old(self)@, event@).1);
        acts
    }

    /// The phase of the conversation with this key, if it is live.
    pub fn phase_of(&self, user: &String, id: &String) -> (r: Option<Phase>)
        requires
            self.wf(),
        ensures
            r == (match find(self@, user@, id@) {
                Some(i) => Some(self@[i].phase),
                None => None::<Phase>,
            }),
    {
        match self.position(user, id) {
            Some(i) => Some(self.txns[i].phase),
            None => None,
        }
    }
}


proof fn lemma_update_same_key(s: Seq<TransactionView>, i: int, t: TransactionView)
    requires
        keys_unique(s),
        0 <= i < s.len(),
        t.user == s[i].user,
        t.id == s[i].id,
    ensures
        keys_unique(s.update(i, t)),
{
    let u = s.update(i, t);
    assert forall|a: int, b: int|
        0 <= a < u.len() && 0 <= b < u.len() && #[trigger] has_key(u[a], u[b].user, u[b].id) implies a
        == b by {
        assert(has_key(s[a], s[b].user, s[b].id));
    }
}

proof fn lemma_remove_unique(s: Seq<TransactionView>, i: int)
    requires
        keys_unique(s),
        0 <= i < s.len(),
    ensures
        keys_unique(s.remove(i)),
{
    let u = s.remove(i);
    assert forall|a: int, b: int|
        0 <= a < u.len() && 0 <= b < u.len() && #[trigger] has_key(u[a], u[b].user, u[b].id) implies a
        == b by {
        let a2 = if a < i { a } else { a + 1 };
        let b2 = if b < i { b } else { b + 1 };
        assert(has_key(s[a2], s[b2].user, s[b2].id));
    }
}

/// Removing an entry that has no open prompt keeps the rest of the invariant.
proof fn lemma_remove_quiet(s: Seq<TransactionView>, i: int)
    requires
        table_wf(s),
        0 <= i < s.len(),
        !awaiting(s[i]),
    ensures
        table_wf(s.remove(i)),
{
    let u = s.remove(i);
    lemma_remove_unique(s, i);
    assert forall|a: int, b: int|
        0 <= a < u.len() && 0 <= b < u.len() && awaiting(#[trigger] u[a]) && awaiting(
            #[trigger] u[b],
        ) implies a == b by {
        let a2 = if a < i { a } else { a + 1 };
        let b2 = if b < i { b } else { b + 1 };
        assert(awaiting(s[a2]) && awaiting(s[b2]));
    }
    if some_waiting(u) {
        let w = choose|w: int| 0 <= w < u.len() && waiting(#[trigger] u[w]);
        let w2 = if w < i { w } else { w + 1 };
        assert(waiting(s[w2]));
        let k = choose|k: int| 0 <= k < s.len() && awaiting(#[trigger] s[k]);
        let k2 = if k < i { k } else { k - 1 };
        assert(awaiting(u[k2]));
    }
}

/// Handing the prompt to the earliest waiting transaction, when no prompt is
/// open, restores the invariant.
proof fn lemma_promote_wf(s: Seq<TransactionView>, acts: Seq<ActionView>)
    requires
        keys_unique(s),
        !prompt_open(s),
    ensures
        table_wf(promote_next(s, acts).0),
{
    match first_waiting(s) {
        Some(j) => {
            assert(first_waiting_at(s, j));
            let t = with_phase(s[j], Phase::AwaitingHumanConfirmation);
            let u = s.update(j, t);
            lemma_update_same_key(s, j, t);
            assert forall|a: int, b: int|
                0 <= a < u.len() && 0 <= b < u.len() && awaiting(#[trigger] u[a]) && awaiting(
                    #[trigger] u[b],
                ) implies a == b by {
                if a != j {
                    assert(awaiting(s[a]));
                }
                if b != j {
                    assert(awaiting(s[b]));
                }
            }
            assert(awaiting(u[j]));
        },
        None => {
            if some_waiting(s) {
                let w = choose|w: int| 0 <= w < s.len() && waiting(#[trigger] s[w]);
                lemma_first_waiting_exists(s, w);
            }
        },
    }
}

proof fn lemma_first_waiting_exists(s: Seq<TransactionView>, w: int)
    requires
        0 <= w < s.len(),
        waiting(s[w]),
    ensures
        exists|i: int| #[trigger] first_waiting_at(s, i),
    decreases w,
{
    if exists|j: int| 0 <= j < w && waiting(#[trigger] s[j]) {
        let j = choose|j: int| 0 <= j < w && waiting(#[trigger] s[j]);
        lemma_first_waiting_exists(s, j);
    } else {
        assert(first_waiting_at(s, w));
    }
}

/// Every event keeps the table well formed.
pub proof fn lemma_next_wf(s: Seq<TransactionView>, e: EventView)
    requires
        table_wf(s),
    ensures
        table_wf(next(s, e).0),
{
    match e {
        EventView::Request { user, device, id, known } => {
            if known && find(s, user, id) is None {
                let t = TransactionView { user, device, id, phase: Phase::Requested };
                lemma_push_quiet(s, t);
            }
        },
        EventView::Started { user, device, id, sas } => {
            if sas {
                let t = TransactionView { user, device, id, phase: Phase::Started };
                match find(s, user, id) {
                    None => lemma_push_quiet(s, t),
                    Some(i) => {
                        if s[i].phase == Phase::Requested {
                            lemma_update_quiet(s, i, t);
                        }
                    },
                }
            }
        },
        EventView::Key { user, id, sas } => {
            match find(s, user, id) {
                Some(i) => {
                    if sas && s[i].phase == Phase::Started {
                        if prompt_open(s) {
                            let t = with_phase(s[i], Phase::KeysExchanged);
                            let u = s.update(i, t);
                            lemma_update_same_key(s, i, t);
                            let k = choose|k: int| 0 <= k < s.len() && awaiting(#[trigger] s[k]);
                            assert(awaiting(u[k]));
                            assert forall|a: int, b: int|
                                0 <= a < u.len() && 0 <= b < u.len() && awaiting(#[trigger] u[a])
                                    && awaiting(#[trigger] u[b]) implies a == b by {
                                assert(awaiting(s[a]) && awaiting(s[b]));
                            }
                        } else {
                            let t = with_phase(s[i], Phase::AwaitingHumanConfirmation);
                            let u = s.update(i, t);
                            lemma_update_same_key(s, i, t);
                            assert(awaiting(u[i]));
                            assert forall|a: int, b: int|
                                0 <= a < u.len() && 0 <= b < u.len() && awaiting(#[trigger] u[a])
                                    && awaiting(#[trigger] u[b]) implies a == b by {
                                if a != i {
                                    assert(awaiting(s[a]));
                                }
                                if b != i {
                                    assert(awaiting(s[b]));
                                }
                            }
                        }
                    }
                },
                None => {},
            }
        },
        EventView::Answered { user, id, confirmed } => {
            match find(s, user, id) {
                Some(i) => {
                    if awaiting(s[i]) {
                        if confirmed {
                            let t = with_phase(s[i], Phase::Confirmed);
                            let u = s.update(i, t);
                            lemma_update_same_key(s, i, t);
                            assert forall|k: int| 0 <= k < u.len() implies !awaiting(
                                #[trigger] u[k],
                            ) by {
                                if k != i {
                                    assert(!(awaiting(s[k]) && awaiting(s[i])) || k == i);
                                }
                            }
                            lemma_promote_wf(u, seq![ActionView::Confirm { user, id }]);
                        } else {
                            let u = s.remove(i);
                            lemma_remove_unique(s, i);
                            assert forall|k: int| 0 <= k < u.len() implies !awaiting(
                                #[trigger] u[k],
                            ) by {
                                let k2 = if k < i { k } else { k + 1 };
                                assert(!(awaiting(s[k2]) && awaiting(s[i])) || k2 == i);
                            }
                            lemma_promote_wf(u, seq![ActionView::Cancel { user, id }]);
                        }
                    }
                },
                None => {},
            }
        },
        EventView::ConfirmSent { user, id, finished } => lemma_finish_wf(s, user, id, finished),
        EventView::Done { user, id, finished } => lemma_finish_wf(s, user, id, finished),
    }
}

proof fn lemma_finish_wf(s: Seq<TransactionView>, user: Seq<char>, id: Seq<char>, finished: bool)
    requires
        table_wf(s),
    ensures
        table_wf(finish(s, user, id, finished).0),
{
    match find(s, user, id) {
        Some(i) => {
            if finished && s[i].phase == Phase::Confirmed {
                lemma_remove_quiet(s, i);
            }
        },
        None => {},
    }
}

/// Adding a transaction under a new key, in a phase without a prompt, keeps
/// the invariant.
proof fn lemma_push_quiet(s: Seq<TransactionView>, t: TransactionView)
    requires
        table_wf(s),
        find(s, t.user, t.id) is None,
        !awaiting(t),
        !waiting(t),
    ensures
        table_wf(s.push(t)),
{
    let u = s.push(t);
    assert forall|a: int, b: int|
        0 <= a < u.len() && 0 <= b < u.len() && #[trigger] has_key(u[a], u[b].user, u[b].id) implies a
        == b by {
        if a < s.len() && b < s.len() {
            assert(has_key(s[a], s[b].user, s[b].id));
        } else if a < s.len() {
            assert(has_key(s[a], t.user, t.id));
        } else if b < s.len() {
            assert(has_key(s[b], t.user, t.id));
        }
    }
    assert forall|a: int, b: int|
        0 <= a < u.len() && 0 <= b < u.len() && awaiting(#[trigger] u[a]) && awaiting(
            #[trigger] u[b],
        ) implies a == b by {
        assert(awaiting(s[a]) && awaiting(s[b]));
    }
    if some_waiting(u) {
        let w = choose|w: int| 0 <= w < u.len() && waiting(#[trigger] u[w]);
        assert(waiting(s[w]));
        let k = choose|k: int| 0 <= k < s.len() && awaiting(#[trigger] s[k]);
        assert(awaiting(u[k]));
    }
}

/// Replacing an entry by one with the same key, neither of them waiting for
/// or holding a prompt, keeps the invariant.
proof fn lemma_update_quiet(s: Seq<TransactionView>, i: int, t: TransactionView)
    requires
        table_wf(s),
        0 <= i < s.len(),
        t.user == s[i].user,
        t.id == s[i].id,
        !awaiting(t),
        !waiting(t),
        !awaiting(s[i]),
        !waiting(s[i]),
    ensures
        table_wf(s.update(i, t)),
{
    let u = s.update(i, t);
    lemma_update_same_key(s, i, t);
    assert forall|a: int, b: int|
        0 <= a < u.len() && 0 <= b < u.len() && awaiting(#[trigger] u[a]) && awaiting(
            #[trigger] u[b],
        ) implies a == b by {
        assert(awaiting(s[a]) && awaiting(s[b]));
    }
    if some_waiting(u) {
        let w = choose|w: int| 0 <= w < u.len() && waiting(#[trigger] u[w]);
        assert(waiting(s[w]));
        let k = choose|k: int| 0 <= k < s.len() && awaiting(#[trigger] s[k]);
        assert(awaiting(u[k]));
    }
}

/// The event concerns no conversation that is live here, or one the
/// protocol layer does not hold.
pub open spec fn references_unknown(s: Seq<TransactionView>, e: EventView) -> bool {
    match e {
        EventView::Request { known, .. } => !known,
        EventView::Started { sas, .. } => !sas,
        EventView::Key { user, id, .. } => find(s, user, id) is None,
        EventView::Done { user, id, .. } => find(s, user, id) is None,
        EventView::Answered { user, id, .. } => find(s, user, id) is None,
        EventView::ConfirmSent { user, id, .. } => find(s, user, id) is None,
    }
}

/// An event that references an unknown or expired transaction is a no-op:
/// it asks for no action (no prompt in particular) and leaves every
/// conversation as it was.
pub proof fn lemma_unknown_transaction_noop(s: Seq<TransactionView>, e: EventView)
    requires
        references_unknown(s, e),
    ensures
        next(s, e) == unchanged(s),
{
}

proof fn lemma_find_pushed(s: Seq<TransactionView>, t: TransactionView)
    requires
        find(s, t.user, t.id) is None,
    ensures
        find(s.push(t), t.user, t.id) == Some(s.len() as int),
{
    let u = s.push(t);
    assert(has_key(u[s.len() as int], t.user, t.id));
    let k = find(u, t.user, t.id)->0;
    if k < s.len() {
        assert(has_key(s[k], t.user, t.id));
    }
}

/// The handshake as it runs when the counterpart initiates it while no other
/// prompt is open: the request and the start are accepted at once, the keys
/// bring exactly one prompt, the operator's answer is passed on, and the
/// success summary comes at the done event if and only if the operator
/// confirmed (and the protocol reports the verification done).
pub proof fn lemma_handshake(
    s: Seq<TransactionView>,
    user: Seq<char>,
    device: Seq<char>,
    id: Seq<char>,
    confirmed: bool,
    finished: bool,
)
    requires
        table_wf(s),
        find(s, user, id) is None,
        !prompt_open(s),
    ensures
        ({
            let (s1, a1) = next(s, EventView::Request { user, device, id, known: true });
            let (s2, a2) = next(s1, EventView::Started { user, device, id, sas: true });
            let (s3, a3) = next(s2, EventView::Key { user, id, sas: true });
            let (s4, a4) = next(s3, EventView::Answered { user, id, confirmed });
            let (s5, a5) = next(s4, EventView::Done { user, id, finished });
            &&& a1 == seq![ActionView::AcceptRequest { user, id }]
            &&& a2 == seq![ActionView::AcceptSas { user, device, id }]
            &&& a3 == seq![ActionView::Prompt { user, id }]
            &&& a4 == if confirmed {
                seq![ActionView::Confirm { user, id }]
            } else {
                seq![ActionView::Cancel { user, id }]
            }
            &&& a5 == if confirmed && finished {
                seq![ActionView::ReportSuccess { user, device, id }]
            } else {
                Seq::<ActionView>::empty()
            }
            &&& (confirmed && finished || !confirmed) ==> s5 == s
        }),
{
    let n = s.len() as int;
    let t1 = TransactionView { user, device, id, phase: Phase::Requested };
    let s1 = s.push(t1);
    lemma_find_pushed(s, t1);
    let t2 = TransactionView { user, device, id, phase: Phase::Started };
    let s2 = s1.update(n, t2);
    assert(find(s2, user, id) == Some(n)) by {
        let k = find(s2, user, id)->0;
        assert(has_key(s2[n], user, id));
        if k < n {
            assert(has_key(s[k], user, id));
        }
    }
    assert(!prompt_open(s2)) by {
        if prompt_open(s2) {
            let k = choose|k: int| 0 <= k < s2.len() && awaiting(#[trigger] s2[k]);
            assert(awaiting(s[k]));
        }
    }
    let t3 = with_phase(t2, Phase::AwaitingHumanConfirmation);
    let s3 = s2.update(n, t3);
    assert(find(s3, user, id) == Some(n)) by {
        let k = find(s3, user, id)->0;
        assert(has_key(s3[n], user, id));
        if k < n {
            assert(has_key(s[k], user, id));
        }
    }
    assert(!some_waiting(s)) by {
        if some_waiting(s) {
            assert(prompt_open(s));
        }
    }
    if confirmed {
        let s4 = s3.update(n, with_phase(t3, Phase::Confirmed));
        assert forall|k: int| !#[trigger] first_waiting_at(s4, k) by {
            if first_waiting_at(s4, k) && k < n {
                assert(waiting(s[k]));
            }
        }
        assert(find(s4, user, id) == Some(n)) by {
            let k = find(s4, user, id)->0;
            assert(has_key(s4[n], user, id));
            if k < n {
                assert(has_key(s[k], user, id));
            }
        }
        assert(next(s3, EventView::Answered { user, id, confirmed }).0 == s4);
        if finished {
            assert(s4.remove(n) =~= s);
        }
    } else {
        let s4 = s3.remove(n);
        assert(s4 =~= s);
        assert forall|k: int| !#[trigger] first_waiting_at(s4, k) by {
            if first_waiting_at(s4, k) {
                assert(waiting(s[k]));
            }
        }
    }
}

} // verus!
