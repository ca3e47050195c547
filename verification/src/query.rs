//! Replies to wire commands: result codes and rejections.

use vstd::prelude::*;
use crate::identity::IngressSource;
use crate::number::Single;
use crate::text::{chars_of, decimal, decimal_text, lemma_decimal_value};

verus! {

/// The code of a reply on the query channel.
#[derive(Clone, Copy, Debug, PartialEq, Eq, Structural)]
pub enum Code {
    /// A long-running operation took effect at once.
    Started,
    /// A long-running operation was admitted and waits its turn.
    Queued,
    /// A field of the command does not have a usable value.
    BadPayload,
    /// The mode name is not one of the presentation modes.
    BadMode,
    /// The asset name does not resolve to an embedded asset.
    BadAsset,
    /// A field is longer than its cap.
    TooLarge,
    /// The text is longer than its cap.
    TextTooLong,
    /// The slot or queue that the command needs is taken.
    Busy,
    /// The agent already has its share of the queue.
    AgentQueueFull,
    /// The name or id is taken and replacement was not asked for.
    AlreadyExists,
    /// The id was used before in this session.
    IdReused,
    /// The session has used up its ids.
    SessionBudget,
    /// The namespace holds as many entries as it may.
    NamespaceCap,
    /// There is nothing of the caller's to act on.
    NothingActive,
    /// No live entry carries the id.
    UnknownId,
    /// The model name is not registered.
    UnknownModel,
    /// The anchor name is not known.
    UnknownAnchor,
    /// The gesture name is not known.
    UnknownGesture,
    /// The entry belongs to another agent.
    NotOwner,
    /// The caller does not hold the capability.
    NotPermitted,
    /// Another terminal's playback holds the scene.
    SceneLocked,
    /// The wire may not reach the file system.
    WireFilesystem,
    /// The object has no place on the screen.
    NoAnchor,
    /// The command or its version is not supported.
    Unsupported,
}

impl Code {
    /// The name on the wire.
    pub open spec fn name(self) -> &'static str {
        match self {
            Code::Started => "started",
            Code::Queued => "queued",
            Code::BadPayload => "bad-payload",
            Code::BadMode => "bad-mode",
            Code::BadAsset => "bad-asset",
            Code::TooLarge => "too-large",
            Code::TextTooLong => "text-too-long",
            Code::Busy => "busy",
            Code::AgentQueueFull => "agent-queue-full",
            Code::AlreadyExists => "already-exists",
            Code::IdReused => "id-reused",
            Code::SessionBudget => "session-budget",
            Code::NamespaceCap => "namespace-cap",
            Code::NothingActive => "nothing-active",
            Code::UnknownId => "unknown-id",
            Code::UnknownModel => "unknown-model",
            Code::UnknownAnchor => "unknown-anchor",
            Code::UnknownGesture => "unknown-gesture",
            Code::NotOwner => "not-owner",
            Code::NotPermitted => "not-permitted",
            Code::SceneLocked => "scene-locked",
            Code::WireFilesystem => "wire-filesystem-access",
            Code::NoAnchor => "no-anchor",
            Code::Unsupported => "unsupported",
        }
    }

    /// The name on the wire.
    pub fn wire_name(self) -> (name: &'static str)
        ensures
            name == self.name(),
    {
        match self {
            Code::Started => "started",
            Code::Queued => "queued",
            Code::BadPayload => "bad-payload",
            Code::BadMode => "bad-mode",
            Code::BadAsset => "bad-asset",
            Code::TooLarge => "too-large",
            Code::TextTooLong => "text-too-long",
            Code::Busy => "busy",
            Code::AgentQueueFull => "agent-queue-full",
            Code::AlreadyExists => "already-exists",
            Code::IdReused => "id-reused",
            Code::SessionBudget => "session-budget",
            Code::NamespaceCap => "namespace-cap",
            Code::NothingActive => "nothing-active",
            Code::UnknownId => "unknown-id",
            Code::UnknownModel => "unknown-model",
            Code::UnknownAnchor => "unknown-anchor",
            Code::UnknownGesture => "unknown-gesture",
            Code::NotOwner => "not-owner",
            Code::NotPermitted => "not-permitted",
            Code::SceneLocked => "scene-locked",
            Code::WireFilesystem => "wire-filesystem-access",
            Code::NoAnchor => "no-anchor",
            Code::Unsupported => "unsupported",
        }
    }
}

/// Why a command was refused: a code and a sentence for people.
#[derive(Debug)]
pub struct Reject {
    /// The wire code.
    pub code: Code,
    /// The sentence.
    pub message: String,
}

impl View for Reject {
    type V = (Code, Seq<char>);

    open spec fn view(&self) -> (Code, Seq<char>) {
        (self.code, self.message@)
    }
}

impl Reject {
    /// A rejection with a fixed sentence.
    pub fn new(code: Code, message: &str) -> (reject: Reject)
        ensures
            reject@ == (code, message@),
    {
        Reject { code, message: message.to_owned() }
    }
}

/// When a long-running operation is expected to end or to start.
#[derive(Clone, Copy, Debug, PartialEq, Eq, Structural)]
pub enum Eta {
    /// Milliseconds until it starts.
    Millis(u64),
    /// It runs for the offset divided by the rate, in seconds.
    Run {
        /// The offset of its last step.
        offset: Single,
        /// The clock multiplier.
        rate: Single,
    },
    /// Frames until it ends.
    Frames(u64),
}

/// The data of a long-running operation's acknowledgement.
#[derive(Debug)]
pub struct Handle {
    /// The execution handle.
    pub id: String,
    /// Operations served before this one.
    pub position: usize,
    /// The estimate.
    pub eta: Eta,
}

/// What a command's owner answers.
#[derive(Debug)]
pub enum Reply {
    /// The command took effect.
    Commit,
    /// The command began a long-running operation.
    LongRunning {
        /// Started or queued.
        code: Code,
        /// The operation.
        handle: Handle,
    },
    /// The command was refused.
    Refused {
        /// The command's wire name.
        action: &'static str,
        /// Why.
        reject: Reject,
    },
}

/// A handle's contents.
pub struct HandleView {
    /// The execution handle.
    pub id: Seq<char>,
    /// Operations served before this one.
    pub position: usize,
    /// The estimate.
    pub eta: Eta,
}

/// A reply's contents.
pub enum ReplyView {
    /// The command took effect.
    Commit,
    /// The command began a long-running operation.
    LongRunning(Code, HandleView),
    /// The command was refused: its wire name, the code and the sentence.
    Refused(Seq<char>, Code, Seq<char>),
}

impl View for Handle {
    type V = HandleView;

    open spec fn view(&self) -> HandleView {
        HandleView { id: self.id@, position: self.position, eta: self.eta }
    }
}

impl View for Reply {
    type V = ReplyView;

    open spec fn view(&self) -> ReplyView {
        match self {
            Reply::Commit => ReplyView::Commit,
            Reply::LongRunning { code, handle } => ReplyView::LongRunning(*code, handle@),
            Reply::Refused { action, reject } => ReplyView::Refused(
                action@,
                reject.code,
                reject.message@,
            ),
        }
    }
}

impl Reply {
    /// A refusal with a fixed sentence.
    pub fn refuse(action: &'static str, code: Code, message: &str) -> (reply: Reply)
        ensures
            reply@ == ReplyView::Refused(action@, code, message@),
    {
        Reply::Refused { action, reject: Reject::new(code, message) }
    }
}

/// An acknowledgement that goes back to the caller.
#[derive(Debug)]
pub struct AckOutcome {
    /// Who asked.
    pub source: IngressSource,
    /// The caller's correlation token.
    pub token: String,
    /// Whether the command took effect.
    pub ok: bool,
    /// The code, where there is one.
    pub code: Option<Code>,
    /// The operation, where one began.
    pub payload: Option<Handle>,
}

/// A refusal that stays readable in the terminal's diagnostics.
#[derive(Debug)]
pub struct Diagnostic {
    /// Who asked.
    pub source: IngressSource,
    /// The command's wire name.
    pub action: &'static str,
    /// Why.
    pub reject: Reject,
}

/// An acknowledgement's contents.
pub struct AckView {
    /// Who asked.
    pub source: IngressSource,
    /// The caller's correlation token.
    pub token: Seq<char>,
    /// Whether the command took effect.
    pub ok: bool,
    /// The code, where there is one.
    pub code: Option<Code>,
    /// The operation, where one began.
    pub payload: Option<HandleView>,
}

/// A diagnostic's contents.
pub struct DiagnosticView {
    /// Who asked.
    pub source: IngressSource,
    /// The command's wire name.
    pub action: Seq<char>,
    /// The code.
    pub code: Code,
    /// The sentence.
    pub message: Seq<char>,
}

impl View for AckOutcome {
    type V = AckView;

    open spec fn view(&self) -> AckView {
        AckView {
            source: self.source,
            token: self.token@,
            ok: self.ok,
            code: self.code,
            payload: match self.payload {
                Some(handle) => Some(handle@),
                None => None,
            },
        }
    }
}

impl View for Diagnostic {
    type V = DiagnosticView;

    open spec fn view(&self) -> DiagnosticView {
        DiagnosticView {
            source: self.source,
            action: self.action@,
            code: self.reject.code,
            message: self.reject.message@,
        }
    }
}

/// What has been answered so far.
pub struct LogState {
    /// The acknowledgements, in order.
    pub acks: Seq<AckView>,
    /// The refusals, in order.
    pub diagnostics: Seq<DiagnosticView>,
}

impl LogState {
    /// Nothing has been answered.
    pub open spec fn empty() -> LogState {
        LogState { acks: Seq::empty(), diagnostics: Seq::empty() }
    }

    /// The log after a reply: a caller hears back only if it sent a token; a
    /// refusal is always kept.
    pub open spec fn posted(
        self,
        source: IngressSource,
        token: Option<Seq<char>>,
        reply: ReplyView,
    ) -> LogState {
        let acks = match token {
            Some(token) => self.acks.push(
                match reply {
                    ReplyView::Commit => AckView {
                        source,
                        token,
                        ok: true,
                        code: None,
                        payload: None,
                    },
                    ReplyView::LongRunning(code, handle) => AckView {
                        source,
                        token,
                        ok: true,
                        code: Some(code),
                        payload: Some(handle),
                    },
                    ReplyView::Refused(_, code, _) => AckView {
                        source,
                        token,
                        ok: false,
                        code: Some(code),
                        payload: None,
                    },
                },
            ),
            None => self.acks,
        };
        let diagnostics = match reply {
            ReplyView::Refused(action, code, message) => self.diagnostics.push(
                DiagnosticView { source, action, code, message },
            ),
            _ => self.diagnostics,
        };
        LogState { acks, diagnostics }
    }

    /// The log after a command's owner has answered, or has let it pass.
    pub open spec fn answered(
        self,
        source: IngressSource,
        token: Option<Seq<char>>,
        reply: Option<ReplyView>,
    ) -> LogState {
        match reply {
            Some(reply) => self.posted(source, token, reply),
            None => self,
        }
    }
}

/// A token's characters.
pub open spec fn token_view(token: Option<String>) -> Option<Seq<char>> {
    match token {
        Some(token) => Some(token@),
        None => None,
    }
}

/// A reply's contents, where there is a reply.
pub open spec fn reply_view(reply: Option<Reply>) -> Option<ReplyView> {
    match reply {
        Some(reply) => Some(reply@),
        None => None,
    }
}

/// The answers of one frame.
#[derive(Debug)]
pub struct ReplyLog {
    /// The acknowledgements, in order.
    pub acks: Vec<AckOutcome>,
    /// The refusals, in order.
    pub diagnostics: Vec<Diagnostic>,
}

impl View for ReplyLog {
    type V = LogState;

    open spec fn view(&self) -> LogState {
        LogState {
            acks: self.acks@.map_values(|ack: AckOutcome| ack@),
            diagnostics: self.diagnostics@.map_values(|row: Diagnostic| row@),
        }
    }
}

impl ReplyLog {
    /// A log without answers.
    pub fn new() -> (log: ReplyLog)
        ensures
            log@ == LogState::empty(),
    {
        let log = ReplyLog { acks: Vec::new(), diagnostics: Vec::new() };
        assert(log@.acks =~= Seq::empty());
        assert(log@.diagnostics =~= Seq::empty());
        log
    }

    fn push_ack(&mut self, ack: AckOutcome)
        ensures
            final(self)@.acks == old(self)@.acks.push(ack@),
            final(self)@.diagnostics == old(self)@.diagnostics,
    {
        self.acks.push(ack);
        assert(self@.acks =~= old(self)@.acks.push(ack@));
    }

    fn push_diagnostic(&mut self, row: Diagnostic)
        ensures
            final(self)@.diagnostics == old(self)@.diagnostics.push(row@),
            final(self)@.acks == old(self)@.acks,
    {
        self.diagnostics.push(row);
        assert(self@.diagnostics =~= old(self)@.diagnostics.push(row@));
    }

    /// Records a reply.
    pub fn post(&mut self, source: IngressSource, token: &Option<String>, reply: Reply)
        ensures
            final(self)@ == old(self)@.posted(source, token_view(*token), reply@),
    {
        match reply {
            Reply::Commit => {
                if let Some(token) = token {
                    self.push_ack(
                        AckOutcome {
                            source,
                            token: token.clone(),
                            ok: true,
                            code: None,
                            payload: None,
                        },
                    );
                }
            },
            Reply::LongRunning { code, handle } => {
                if let Some(token) = token {
                    self.push_ack(
                        AckOutcome {
                            source,
                            token: token.clone(),
                            ok: true,
                            code: Some(code),
                            payload: Some(handle),
                        },
                    );
                }
            },
            Reply::Refused { action, reject } => {
                if let Some(token) = token {
                    self.push_ack(
                        AckOutcome {
                            source,
                            token: token.clone(),
                            ok: false,
                            code: Some(reject.code),
                            payload: None,
                        },
                    );
                }
                self.push_diagnostic(Diagnostic { source, action, reject });
            },
        }
    }

    /// Records a reply, where there is one.
    pub fn answer(&mut self, source: IngressSource, token: &Option<String>, reply: Option<Reply>)
        ensures
            final(self)@ == old(self)@.answered(source, token_view(*token), reply_view(reply)),
    {
        if let Some(reply) = reply {
            self.post(source, token, reply);
        }
    }
}

/// What a query session has minted.
pub struct SessionState {
    /// The session's own prefix.
    pub nonce: Seq<char>,
    /// How many handles it has minted.
    pub minted: nat,
}

impl SessionState {
    /// The session's handle with a number.
    pub open spec fn handle(self, number: nat) -> Seq<char> {
        self.nonce + seq!['-'] + decimal(number)
    }

    /// The handle that the session mints next.
    pub open spec fn next_handle(self) -> Seq<char> {
        self.handle(self.minted + 1)
    }

    /// The session after a mint.
    pub open spec fn after_mint(self) -> SessionState {
        SessionState { nonce: self.nonce, minted: self.minted + 1 }
    }

    /// Whether a handle carries the session's prefix.
    pub open spec fn owns(self, id: Seq<char>) -> bool {
        let prefix = self.nonce + seq!['-'];
        prefix.len() <= id.len() && id.take(prefix.len() as int) == prefix
    }
}

/// The session that execution handles are minted in.
#[derive(Debug)]
pub struct QuerySession {
    nonce: String,
    minted: u64,
}

impl View for QuerySession {
    type V = SessionState;

    closed spec fn view(&self) -> SessionState {
        SessionState { nonce: self.nonce@, minted: self.minted as nat }
    }
}

impl QuerySession {
    /// A session with its prefix.
    pub fn new(nonce: &str) -> (session: QuerySession)
        ensures
            session@ == (SessionState { nonce: nonce@, minted: 0 }),
    {
        QuerySession { nonce: nonce.to_owned(), minted: 0 }
    }

    /// The session's prefix.
    pub fn nonce_hex(&self) -> (nonce: &str)
        ensures
            nonce@ == self@.nonce,
    {
        self.nonce.as_str()
    }

    /// Mints a handle that this session has not minted before.
    pub fn mint_execution_id(&mut self) -> (id: String)
        requires
            old(self)@.minted < u64::MAX,
        ensures
            id@ == old(self)@.next_handle(),
            final(self)@ == old(self)@.after_mint(),
    {
        self.minted = self.minted + 1;
        let mut id = self.nonce.clone();
        id.append("-");
        id.append(&decimal_text(self.minted));
        proof {
            reveal_strlit("-");
            assert("-"@ =~= seq!['-']);
        }
        id
    }

    /// Whether a handle was minted under this session's prefix.
    pub fn owns_execution_id(&self, id: &str) -> (owned: bool)
        ensures
            owned == self@.owns(id@),
    {
        let prefix = chars_of(&self.nonce);
        let chars = chars_of(id);
        let ghost marked = self@.nonce + seq!['-'];
        if chars.len() <= prefix.len() {
            return false;
        }
        let mut i: usize = 0;
        while i < prefix.len()
            invariant
                i <= prefix@.len() < chars@.len(),
                chars@ == id@,
                prefix@ == self@.nonce,
                marked == self@.nonce + seq!['-'],
                forall|j: int| 0 <= j < i ==> prefix@[j] == chars@[j],
            decreases prefix.len() - i,
        {
            if prefix[i] != chars[i] {
                proof {
                    assert(id@.take(marked.len() as int)[i as int] != marked[i as int]);
                }
                return false;
            }
            i += 1;
        }
        proof {
            if chars@[i as int] == '-' {
                assert(id@.take(marked.len() as int) =~= marked);
            } else {
                assert(id@.take(marked.len() as int)[i as int] != marked[i as int]);
            }
        }
        chars[i] == '-'
    }
}

/// A session owns every handle that it mints, and never mints one twice.
pub proof fn law_handles_are_unique(session: SessionState, a: nat, b: nat)
    ensures
        session.owns(session.handle(a)),
        session.handle(a) == session.handle(b) ==> a == b,
{
    let prefix = session.nonce + seq!['-'];
    assert(session.handle(a).take(prefix.len() as int) =~= prefix);
    if session.handle(a) == session.handle(b) {
        assert(session.handle(a).skip(prefix.len() as int) =~= decimal(a));
        assert(session.handle(b).skip(prefix.len() as int) =~= decimal(b));
        lemma_decimal_value(a);
        lemma_decimal_value(b);
    }
}

/// Who hears what. A caller that sent a token hears back once: that its command
/// took effect, with the code and the handle where something began, or that it
/// did not, with the code. Without a token nobody hears; a refusal is kept all
/// the same, with its action, its code and its sentence.
pub proof fn law_who_hears_what(
    log: LogState,
    source: IngressSource,
    token: Option<Seq<char>>,
    reply: ReplyView,
)
    ensures
        ({
            let after = log.answered(source, token, Some(reply));
            let ack = after.acks.last();
            let refusal = after.diagnostics.last();
            &&& log.answered(source, token, None) == log
            &&& token is None ==> after.acks == log.acks
            &&& token is Some ==> {
                &&& after.acks.len() == log.acks.len() + 1
                &&& after.acks.drop_last() == log.acks
                &&& ack.source == source
                &&& ack.token == token->0
                &&& ack.ok <==> !(reply is Refused)
                &&& reply is Commit ==> ack.code is None && ack.payload is None
                &&& reply matches ReplyView::LongRunning(code, handle) ==> ack.code == Some(code)
                    && ack.payload == Some(handle)
                &&& reply matches ReplyView::Refused(_, code, _) ==> ack.code == Some(code)
                    && ack.payload is None
            }
            &&& !(reply is Refused) ==> after.diagnostics == log.diagnostics
            &&& reply matches ReplyView::Refused(action, code, message) ==> {
                &&& after.diagnostics.len() == log.diagnostics.len() + 1
                &&& after.diagnostics.drop_last() == log.diagnostics
                &&& refusal.source == source && refusal.action == action && refusal.code == code
                    && refusal.message == message
            }
        }),
{
    let after = log.answered(source, token, Some(reply));
    if token is Some {
        assert(after.acks.drop_last() =~= log.acks);
    }
    if reply is Refused {
        assert(after.diagnostics.drop_last() =~= log.diagnostics);
    }
}

/// A session mints a new handle each time: its own prefix, a dash, and the next
/// number from one on. It owns exactly the handles that begin with its prefix
/// and a dash.
pub proof fn law_sessions_count_their_handles(session: SessionState, id: Seq<char>, rest: Seq<char>)
    ensures
        session.next_handle() == session.nonce + seq!['-'] + decimal(session.minted + 1),
        session.after_mint().minted == session.minted + 1,
        session.after_mint().nonce == session.nonce,
        session.after_mint().next_handle() != session.next_handle(),
        session.owns(session.nonce + seq!['-'] + rest),
        session.owns(id) ==> session.nonce.is_prefix_of(id) && id.len() > session.nonce.len()
            && id[session.nonce.len() as int] == '-',
{
    law_handles_are_unique(session, session.minted + 1, session.minted + 2);
    let prefix = session.nonce + seq!['-'];
    assert((prefix + rest).take(prefix.len() as int) =~= prefix);
    if session.owns(id) {
        assert(id.take(prefix.len() as int)[session.nonce.len() as int] == '-');
        assert(id.take(session.nonce.len() as int) =~= prefix.take(session.nonce.len() as int));
        assert(prefix.take(session.nonce.len() as int) =~= session.nonce);
        assert(session.nonce =~= id.subrange(0, session.nonce.len() as int));
    }
}

/// The names of the codes on the wire.
pub proof fn law_codes_have_their_names()
    ensures
        Code::Started.name()@ == "started"@,
        Code::Queued.name()@ == "queued"@,
        Code::BadPayload.name()@ == "bad-payload"@,
        Code::BadMode.name()@ == "bad-mode"@,
        Code::BadAsset.name()@ == "bad-asset"@,
        Code::TooLarge.name()@ == "too-large"@,
        Code::TextTooLong.name()@ == "text-too-long"@,
        Code::Busy.name()@ == "busy"@,
        Code::AgentQueueFull.name()@ == "agent-queue-full"@,
        Code::AlreadyExists.name()@ == "already-exists"@,
        Code::IdReused.name()@ == "id-reused"@,
        Code::SessionBudget.name()@ == "session-budget"@,
        Code::NamespaceCap.name()@ == "namespace-cap"@,
        Code::NothingActive.name()@ == "nothing-active"@,
        Code::UnknownId.name()@ == "unknown-id"@,
        Code::UnknownModel.name()@ == "unknown-model"@,
        Code::UnknownAnchor.name()@ == "unknown-anchor"@,
        Code::UnknownGesture.name()@ == "unknown-gesture"@,
        Code::NotOwner.name()@ == "not-owner"@,
        Code::NotPermitted.name()@ == "not-permitted"@,
        Code::SceneLocked.name()@ == "scene-locked"@,
        Code::WireFilesystem.name()@ == "wire-filesystem-access"@,
        Code::NoAnchor.name()@ == "no-anchor"@,
        Code::Unsupported.name()@ == "unsupported"@,
{
}

} // verus!
