//! Bookmarks: stored views of the scene, per agent.
//!
//! A jump replays a stored view as ordinary commands, under the caller's
//! current authority.

use vstd::prelude::*;
use crate::ai::{AiCommand, CommandOrigin};
use crate::identity::IngressSource;
use crate::number::{Single, ONE_BITS};
use crate::osc::RattyAiCommand;
use crate::query::{reply_view, token_view, Code, LogState, Reject, Reply, ReplyLog, ReplyView};
use crate::scene::{mode_wire_name, TerminalPresentationMode};
use crate::text::{byte_len, decimal, decimal_text, same_text, text_byte_len};

verus! {

/// Upper bound on stored bookmarks per agent.
pub const MAX_BOOKMARKS_PER_NAMESPACE: usize = 16;

/// Upper bound, in bytes, on a bookmark name.
pub const MAX_BOOKMARK_NAME_BYTES: usize = 64;

/// The bookmark format that is stored and replayed.
pub const BOOKMARK_VERSION: u32 = 1;

/// A stored view.
#[derive(Clone, Copy, Debug)]
pub struct ViewBookmark {
    /// Format version.
    pub v: u32,
    /// The presentation mode's canonical wire name.
    pub mode: &'static str,
    /// The plane warp, from zero to one.
    pub warp: Single,
}

/// A bookmark where it is kept.
pub struct EntryView {
    /// Whose it is.
    pub namespace: u8,
    /// Its name.
    pub name: Seq<char>,
    /// The view.
    pub view: ViewBookmark,
}

#[derive(Debug)]
struct Entry {
    namespace: u8,
    name: String,
    view: ViewBookmark,
}

/// The index of an agent's bookmark.
pub open spec fn entry_index(entries: Seq<EntryView>, namespace: u8, name: Seq<char>) -> Option<int>
    decreases entries.len(),
{
    if entries.len() == 0 {
        None
    } else {
        match entry_index(entries.drop_last(), namespace, name) {
            Some(i) => Some(i),
            None => if entries.last().namespace == namespace && entries.last().name == name {
                Some(entries.len() - 1)
            } else {
                None
            },
        }
    }
}

/// How many bookmarks an agent has.
pub open spec fn kept_by(entries: Seq<EntryView>, namespace: u8) -> nat
    decreases entries.len(),
{
    if entries.len() == 0 {
        0
    } else {
        kept_by(entries.drop_last(), namespace) + if entries.last().namespace == namespace {
            1nat
        } else {
            0nat
        }
    }
}

/// The bookmarks after one was put under a name.
pub open spec fn kept(
    entries: Seq<EntryView>,
    namespace: u8,
    name: Seq<char>,
    view: ViewBookmark,
) -> Seq<EntryView> {
    let entry = EntryView { namespace, name, view };
    match entry_index(entries, namespace, name) {
        Some(i) => entries.update(i, entry),
        None => entries.push(entry),
    }
}

/// No agent has a name twice, and none has more bookmarks than the cap.
pub open spec fn bookmarks_wf(entries: Seq<EntryView>) -> bool {
    &&& forall|i: int, j: int|
        0 <= i < j < entries.len() ==> (#[trigger] entries[i]).namespace != (
        #[trigger] entries[j]).namespace || entries[i].name != entries[j].name
    &&& forall|namespace: u8| #[trigger] kept_by(entries, namespace) <= MAX_BOOKMARKS_PER_NAMESPACE
}

proof fn lemma_entry_index(entries: Seq<EntryView>, namespace: u8, name: Seq<char>)
    ensures
        match entry_index(entries, namespace, name) {
            Some(i) => 0 <= i < entries.len() && entries[i].namespace == namespace
                && entries[i].name == name && forall|j: int|
                0 <= j < i ==> !((#[trigger] entries[j]).namespace == namespace && entries[j].name
                    == name),
            None => forall|j: int|
                0 <= j < entries.len() ==> !((#[trigger] entries[j]).namespace == namespace
                    && entries[j].name == name),
        },
    decreases entries.len(),
{
    if entries.len() > 0 {
        lemma_entry_index(entries.drop_last(), namespace, name);
        assert forall|j: int| 0 <= j < entries.len() - 1 implies #[trigger] entries[j]
            == entries.drop_last()[j] by {}
    }
}

proof fn lemma_kept_by_push(entries: Seq<EntryView>, entry: EntryView, namespace: u8)
    ensures
        kept_by(entries.push(entry), namespace) == kept_by(entries, namespace)
            + if entry.namespace == namespace {
            1nat
        } else {
            0nat
        },
{
    assert(entries.push(entry).drop_last() =~= entries);
}

proof fn lemma_kept_by_update(entries: Seq<EntryView>, at: int, entry: EntryView, namespace: u8)
    requires
        0 <= at < entries.len(),
        entries[at].namespace == entry.namespace,
    ensures
        kept_by(entries.update(at, entry), namespace) == kept_by(entries, namespace),
    decreases entries.len(),
{
    let next = entries.update(at, entry);
    if at < entries.len() - 1 {
        lemma_kept_by_update(entries.drop_last(), at, entry, namespace);
        assert(next.drop_last() =~= entries.drop_last().update(at, entry));
    } else {
        assert(next.drop_last() =~= entries.drop_last());
    }
}

/// Keeping a bookmark keeps names distinct and every agent within its cap,
/// where the agent had room or replaces one of its own.
pub proof fn law_bookmark_caps_hold(
    entries: Seq<EntryView>,
    namespace: u8,
    name: Seq<char>,
    view: ViewBookmark,
)
    requires
        bookmarks_wf(entries),
        entry_index(entries, namespace, name) is Some || kept_by(entries, namespace)
            < MAX_BOOKMARKS_PER_NAMESPACE,
    ensures
        bookmarks_wf(kept(entries, namespace, name, view)),
{
    lemma_entry_index(entries, namespace, name);
    let entry = EntryView { namespace, name, view };
    let after = kept(entries, namespace, name, view);
    match entry_index(entries, namespace, name) {
        Some(i) => {
            assert forall|n: u8| #[trigger] kept_by(after, n) <= MAX_BOOKMARKS_PER_NAMESPACE by {
                lemma_kept_by_update(entries, i, entry, n);
                assert(kept_by(entries, n) <= MAX_BOOKMARKS_PER_NAMESPACE);
            }
            assert forall|a: int, b: int| 0 <= a < b < after.len() implies (
            #[trigger] after[a]).namespace != (#[trigger] after[b]).namespace || after[a].name
                != after[b].name by {
                assert(after[a].namespace == entries[a].namespace && after[a].name
                    == entries[a].name);
                assert(after[b].namespace == entries[b].namespace && after[b].name
                    == entries[b].name);
            }
        },
        None => {
            assert forall|n: u8| #[trigger] kept_by(after, n) <= MAX_BOOKMARKS_PER_NAMESPACE by {
                lemma_kept_by_push(entries, entry, n);
                assert(kept_by(entries, n) <= MAX_BOOKMARKS_PER_NAMESPACE);
            }
        },
    }
}

/// The stored bookmarks.
#[derive(Debug)]
pub struct BookmarkRegistry {
    entries: Vec<Entry>,
}

impl View for BookmarkRegistry {
    type V = Seq<EntryView>;

    closed spec fn view(&self) -> Seq<EntryView> {
        self.entries@.map_values(
            |entry: Entry|
                EntryView { namespace: entry.namespace, name: entry.name@, view: entry.view },
        )
    }
}

impl BookmarkRegistry {
    /// No name occurs twice and the caps hold.
    pub open spec fn wf(&self) -> bool {
        bookmarks_wf(self@)
    }

    /// No bookmarks.
    pub fn new() -> (registry: BookmarkRegistry)
        ensures
            registry.wf(),
            registry@ == Seq::<EntryView>::empty(),
    {
        let registry = BookmarkRegistry { entries: Vec::new() };
        assert(registry@ =~= Seq::empty());
        registry
    }

    fn find(&self, namespace: u8, name: &str) -> (found: Option<usize>)
        ensures
            match found {
                Some(i) => entry_index(self@, namespace, name@) == Some(i as int) && i
                    < self@.len(),
                None => entry_index(self@, namespace, name@) is None,
            },
    {
        proof {
            lemma_entry_index(self@, namespace, name@);
        }
        let mut i: usize = 0;
        while i < self.entries.len()
            invariant
                i <= self.entries.len(),
                self.entries.len() == self@.len(),
                forall|j: int|
                    0 <= j < i ==> !((#[trigger] self@[j]).namespace == namespace && self@[j].name
                        == name@),
                match entry_index(self@, namespace, name@) {
                    Some(k) => 0 <= k < self@.len() && self@[k].namespace == namespace
                        && self@[k].name == name@ && forall|j: int|
                        0 <= j < k ==> !((#[trigger] self@[j]).namespace == namespace
                            && self@[j].name == name@),
                    None => forall|j: int|
                        0 <= j < self@.len() ==> !((#[trigger] self@[j]).namespace == namespace
                            && self@[j].name == name@),
                },
            decreases self.entries.len() - i,
        {
            assert(self@[i as int].name == self.entries@[i as int].name@);
            if self.entries[i].namespace == namespace && same_text(&self.entries[i].name, name) {
                return Some(i);
            }
            i += 1;
        }
        None
    }

    /// An agent's bookmark.
    pub fn get(&self, namespace: u8, name: &str) -> (found: Option<&ViewBookmark>)
        ensures
            match (found, entry_index(self@, namespace, name@)) {
                (Some(view), Some(i)) => *view == self@[i].view,
                (None, None) => true,
                _ => false,
            },
    {
        match self.find(namespace, name) {
            Some(i) => {
                assert(self@[i as int].view == self.entries@[i as int].view);
                Some(&self.entries[i].view)
            },
            None => None,
        }
    }

    /// How many bookmarks an agent has.
    pub fn namespace_len(&self, namespace: u8) -> (len: usize)
        ensures
            len == kept_by(self@, namespace),
    {
        let mut len: usize = 0;
        let mut i: usize = 0;
        assert(self@.take(0) =~= Seq::empty());
        while i < self.entries.len()
            invariant
                i <= self.entries.len(),
                len <= i,
                self.entries.len() == self@.len(),
                len == kept_by(self@.take(i as int), namespace),
            decreases self.entries.len() - i,
        {
            proof {
                let next = self@.take(i + 1);
                assert(next.drop_last() =~= self@.take(i as int));
                assert(next.last() == self@[i as int]);
                assert(self@[i as int].namespace == self.entries@[i as int].namespace);
            }
            if self.entries[i].namespace == namespace {
                len += 1;
            }
            i += 1;
        }
        assert(self@.take(i as int) =~= self@);
        len
    }

    /// An agent's bookmarks under their names.
    pub fn iter_namespace(&self, namespace: u8) -> (found: Vec<(&String, ViewBookmark)>)
        ensures
            found@.map_values(
                |row: (&String, ViewBookmark)|
                    EntryView { namespace, name: row.0@, view: row.1 },
            ) == self@.filter(|entry: EntryView| entry.namespace == namespace),
    {
        let ghost own = |entry: EntryView| entry.namespace == namespace;
        let ghost show = |row: (&String, ViewBookmark)|
            EntryView { namespace, name: row.0@, view: row.1 };
        let mut found: Vec<(&String, ViewBookmark)> = Vec::new();
        let mut i: usize = 0;
        proof {
            assert(self@.take(0) =~= Seq::empty());
            reveal(Seq::filter);
            assert(found@.map_values(show) =~= self@.take(0).filter(own));
        }
        while i < self.entries.len()
            invariant
                i <= self.entries.len(),
                self.entries.len() == self@.len(),
                own == (|entry: EntryView| entry.namespace == namespace),
                show == (|row: (&String, ViewBookmark)|
                    EntryView { namespace, name: row.0@, view: row.1 }),
                found@.map_values(show) == self@.take(i as int).filter(own),
            decreases self.entries.len() - i,
        {
            let ghost before = found@;
            proof {
                let next = self@.take(i + 1);
                assert(next =~= self@.take(i as int).push(self@[i as int]));
                self@.take(i as int).lemma_filter_push(self@[i as int], own);
            }
            if self.entries[i].namespace == namespace {
                found.push((&self.entries[i].name, self.entries[i].view));
                proof {
                    assert(found@.map_values(show) =~= before.map_values(show).push(
                        self@[i as int],
                    ));
                }
            }
            i += 1;
        }
        assert(self@.take(i as int) =~= self@);
        found
    }

    fn insert(&mut self, namespace: u8, name: String, view: ViewBookmark)
        requires
            old(self).wf(),
            entry_index(old(self)@, namespace, name@) is Some || kept_by(old(self)@, namespace)
                < MAX_BOOKMARKS_PER_NAMESPACE,
        ensures
            final(self).wf(),
            final(self)@ == kept(old(self)@, namespace, name@, view),
    {
        proof {
            law_bookmark_caps_hold(self@, namespace, name@, view);
        }
        let ghost entry = EntryView { namespace, name: name@, view };
        match self.find(namespace, &name) {
            Some(i) => {
                self.entries.set(i, Entry { namespace, name, view });
                assert(self@ =~= old(self)@.update(i as int, entry));
            },
            None => {
                self.entries.push(Entry { namespace, name, view });
                assert(self@ =~= old(self)@.push(entry));
            },
        }
    }

    fn clear(&mut self)
        ensures
            final(self).wf(),
            final(self)@ == Seq::<EntryView>::empty(),
    {
        self.entries.clear();
        assert(self@ =~= Seq::empty());
    }
}

impl Default for BookmarkRegistry {
    fn default() -> (registry: Self)
        ensures
            registry.wf(),
            registry@ == Seq::<EntryView>::empty(),
    {
        BookmarkRegistry::new()
    }
}

/// A jump that waits to be replayed.
#[derive(Clone, Copy, Debug)]
pub struct BookmarkJump {
    /// Who jumps.
    pub source: IngressSource,
    /// The stored mode.
    pub mode: &'static str,
    /// The stored warp.
    pub warp: Single,
}

/// The jumps that wait to be replayed.
#[derive(Debug)]
pub struct PendingBookmarkJumps {
    /// The jumps, in order.
    pub jumps: Vec<BookmarkJump>,
}

/// What the bookmark organ holds and answers.
pub struct BookmarkWorld {
    /// The bookmarks.
    pub entries: Seq<EntryView>,
    /// The waiting jumps.
    pub jumps: Seq<BookmarkJump>,
}

/// The sentence for a name that is taken.
pub open spec fn bookmark_exists(name: Seq<char>) -> Seq<char> {
    "bookmark '"@ + name + "' exists (pass mode=replace to overwrite it)"@
}

/// The sentence for an agent at its cap.
pub open spec fn bookmark_cap(namespace: u8) -> Seq<char> {
    "namespace "@ + decimal(namespace as nat) + " is at its 16-bookmark limit"@
}

/// The sentence for a name that is not stored.
pub open spec fn no_bookmark(name: Seq<char>) -> Seq<char> {
    "no bookmark '"@ + name + "' in the caller's namespace"@
}

/// The sentence for a format that is not replayed.
pub open spec fn bookmark_version(name: Seq<char>, v: u32) -> Seq<char> {
    "bookmark '"@ + name + "' is version "@ + decimal(v as nat) + " (this build replays 1)"@
}

/// The view that a bookmark stores of the scene.
pub open spec fn current_view(mode: TerminalPresentationMode, warp: Single) -> ViewBookmark {
    ViewBookmark {
        v: BOOKMARK_VERSION,
        mode: mode.name(),
        warp: warp.clamped(Single { bits: 0 }, Single { bits: ONE_BITS }),
    }
}

impl BookmarkWorld {
    /// What a command does to the bookmarks, and what is answered.
    pub open spec fn step(
        self,
        source: IngressSource,
        command: RattyAiCommand,
        mode: TerminalPresentationMode,
        warp: Single,
    ) -> (BookmarkWorld, Option<ReplyView>) {
        match command {
            RattyAiCommand::Bookmark { name, replace } => {
                let exists = entry_index(self.entries, source.slot(), name@) is Some;
                if name@.len() == 0 {
                    (
                        self,
                        Some(
                            ReplyView::Refused(
                                "bookmark"@,
                                Code::BadPayload,
                                "name= must be non-empty"@,
                            ),
                        ),
                    )
                } else if byte_len(name@) > MAX_BOOKMARK_NAME_BYTES {
                    (
                        self,
                        Some(
                            ReplyView::Refused(
                                "bookmark"@,
                                Code::TooLarge,
                                "name exceeds 64 bytes"@,
                            ),
                        ),
                    )
                } else if exists && !replace {
                    (
                        self,
                        Some(
                            ReplyView::Refused(
                                "bookmark"@,
                                Code::AlreadyExists,
                                bookmark_exists(name@),
                            ),
                        ),
                    )
                } else if !exists && kept_by(self.entries, source.slot())
                    >= MAX_BOOKMARKS_PER_NAMESPACE {
                    (
                        self,
                        Some(
                            ReplyView::Refused(
                                "bookmark"@,
                                Code::NamespaceCap,
                                bookmark_cap(source.slot()),
                            ),
                        ),
                    )
                } else {
                    (
                        BookmarkWorld {
                            entries: kept(
                                self.entries,
                                source.slot(),
                                name@,
                                current_view(mode, warp),
                            ),
                            jumps: self.jumps,
                        },
                        Some(ReplyView::Commit),
                    )
                }
            },
            RattyAiCommand::BookmarkJump { name } => match entry_index(
                self.entries,
                source.slot(),
                name@,
            ) {
                None => (
                    self,
                    Some(
                        ReplyView::Refused("bookmark.jump"@, Code::UnknownId, no_bookmark(name@)),
                    ),
                ),
                Some(i) => {
                    let view = self.entries[i].view;
                    if view.v != BOOKMARK_VERSION {
                        (
                            self,
                            Some(
                                ReplyView::Refused(
                                    "bookmark.jump"@,
                                    Code::Unsupported,
                                    bookmark_version(name@, view.v),
                                ),
                            ),
                        )
                    } else {
                        (
                            BookmarkWorld {
                                entries: self.entries,
                                jumps: self.jumps.push(
                                    BookmarkJump { source, mode: view.mode, warp: view.warp },
                                ),
                            },
                            Some(ReplyView::Commit),
                        )
                    }
                },
            },
            RattyAiCommand::Reset => (
                BookmarkWorld { entries: Seq::empty(), jumps: self.jumps },
                None,
            ),
            _ => (self, None),
        }
    }
}

/// The bookmarks and the answers after a run of commands.
pub open spec fn bookmark_run(
    world: BookmarkWorld,
    log: LogState,
    commands: Seq<AiCommand>,
    mode: TerminalPresentationMode,
    warp: Single,
) -> (BookmarkWorld, LogState)
    decreases commands.len(),
{
    if commands.len() == 0 {
        (world, log)
    } else {
        let (world, log) = bookmark_run(world, log, commands.drop_last(), mode, warp);
        let last = commands.last();
        let (world, reply) = world.step(last.source, last.command, mode, warp);
        (world, log.answered(last.source, token_view(last.ack_token), reply))
    }
}

fn refuse(action: &'static str, code: Code, message: String) -> (reply: Option<Reply>)
    ensures
        reply_view(reply) == Some(ReplyView::Refused(action@, code, message@)),
{
    Some(Reply::Refused { action, reject: Reject { code, message } })
}

fn apply_bookmark_command(
    registry: &mut BookmarkRegistry,
    pending: &mut PendingBookmarkJumps,
    source: IngressSource,
    command: &RattyAiCommand,
    mode: TerminalPresentationMode,
    warp: Single,
) -> (reply: Option<Reply>)
    requires
        old(registry).wf(),
    ensures
        final(registry).wf(),
        (
            BookmarkWorld { entries: final(registry)@, jumps: final(pending).jumps@ },
            reply_view(reply),
        ) == (BookmarkWorld { entries: old(registry)@, jumps: old(pending).jumps@ }).step(
            source,
            *command,
            mode,
            warp,
        ),
{
    match command {
        RattyAiCommand::Bookmark { name, replace } => {
            let namespace: u8 = source.namespace();
            if name.as_str().is_empty() {
                return Some(
                    Reply::refuse("bookmark", Code::BadPayload, "name= must be non-empty"),
                );
            }
            if text_byte_len(name) > MAX_BOOKMARK_NAME_BYTES {
                return Some(Reply::refuse("bookmark", Code::TooLarge, "name exceeds 64 bytes"));
            }
            let exists: bool = registry.get(namespace, name).is_some();
            if exists && !*replace {
                let mut message = "bookmark '".to_owned();
                message.append(name);
                message.append("' exists (pass mode=replace to overwrite it)");
                return refuse("bookmark", Code::AlreadyExists, message);
            }
            if !exists && registry.namespace_len(namespace) >= MAX_BOOKMARKS_PER_NAMESPACE {
                let mut message = "namespace ".to_owned();
                message.append(&decimal_text(namespace as u64));
                message.append(" is at its 16-bookmark limit");
                return refuse("bookmark", Code::NamespaceCap, message);
            }
            let view = ViewBookmark {
                v: BOOKMARK_VERSION,
                mode: mode_wire_name(mode),
                warp: warp.clamp_to(Single { bits: 0 }, Single { bits: ONE_BITS }),
            };
            registry.insert(namespace, name.clone(), view);
            Some(Reply::Commit)
        },
        RattyAiCommand::BookmarkJump { name } => {
            let view: ViewBookmark = match registry.get(source.namespace(), name) {
                Some(view) => *view,
                None => {
                    let mut message = "no bookmark '".to_owned();
                    message.append(name);
                    message.append("' in the caller's namespace");
                    return refuse("bookmark.jump", Code::UnknownId, message);
                },
            };
            if view.v != BOOKMARK_VERSION {
                let mut message = "bookmark '".to_owned();
                message.append(name);
                message.append("' is version ");
                message.append(&decimal_text(view.v as u64));
                message.append(" (this build replays 1)");
                return refuse("bookmark.jump", Code::Unsupported, message);
            }
            pending.jumps.push(BookmarkJump { source, mode: view.mode, warp: view.warp });
            Some(Reply::Commit)
        },
        RattyAiCommand::Reset => {
            registry.clear();
            None
        },
        _ => None,
    }
}

/// Applies a frame's bookmark commands against the scene as it stands.
pub fn apply_bookmark_commands(
    commands: &Vec<AiCommand>,
    registry: &mut BookmarkRegistry,
    mode: TerminalPresentationMode,
    warp: Single,
    pending: &mut PendingBookmarkJumps,
    log: &mut ReplyLog,
)
    requires
        old(registry).wf(),
    ensures
        final(registry).wf(),
        (
            BookmarkWorld { entries: final(registry)@, jumps: final(pending).jumps@ },
            final(log)@,
        ) == bookmark_run(
            BookmarkWorld { entries: old(registry)@, jumps: old(pending).jumps@ },
            old(log)@,
            commands@,
            mode,
            warp,
        ),
{
    let ghost start = BookmarkWorld { entries: registry@, jumps: pending.jumps@ };
    let mut i: usize = 0;
    assert(commands@.take(0) =~= Seq::empty());
    while i < commands.len()
        invariant
            i <= commands@.len(),
            registry.wf(),
            (BookmarkWorld { entries: registry@, jumps: pending.jumps@ }, log@) == bookmark_run(
                start,
                old(log)@,
                commands@.take(i as int),
                mode,
                warp,
            ),
        decreases commands.len() - i,
    {
        let entry = &commands[i];
        proof {
            let next = commands@.take(i + 1);
            assert(next.drop_last() =~= commands@.take(i as int));
            assert(next.last() == commands@[i as int]);
        }
        let reply = apply_bookmark_command(
            registry,
            pending,
            entry.source,
            &entry.command,
            mode,
            warp,
        );
        log.answer(entry.source, &entry.ack_token, reply);
        i += 1;
    }
    assert(commands@.take(i as int) =~= commands@);
}

/// Whether two commands replay a jump: the mode, then the warp, without
/// tokens, under the jumper's authority.
pub open spec fn replays(mode: AiCommand, warp: AiCommand, jump: BookmarkJump) -> bool {
    &&& mode.source == jump.source
    &&& mode.ack_token is None
    &&& mode.origin == CommandOrigin::Bookmark
    &&& mode.command matches RattyAiCommand::SetMode { mode: name } && name@ == jump.mode@
    &&& warp.source == jump.source
    &&& warp.ack_token is None
    &&& warp.origin == CommandOrigin::Bookmark
    &&& warp.command == (RattyAiCommand::SetWarp { intensity: jump.warp })
}

/// Replays the waiting jumps as ordinary commands.
pub fn drain_bookmark_jumps(pending: &mut PendingBookmarkJumps) -> (out: Vec<AiCommand>)
    ensures
        final(pending).jumps@ == Seq::<BookmarkJump>::empty(),
        out@.len() == 2 * old(pending).jumps@.len(),
        forall|i: int|
            0 <= i < old(pending).jumps@.len() ==> replays(
                out@[2 * i],
                out@[2 * i + 1],
                #[trigger] old(pending).jumps@[i],
            ),
{
    let mut out: Vec<AiCommand> = Vec::new();
    let mut i: usize = 0;
    while i < pending.jumps.len()
        invariant
            i <= pending.jumps@.len(),
            pending.jumps@ == old(pending).jumps@,
            out@.len() == 2 * i,
            forall|k: int|
                0 <= k < i ==> replays(
                    out@[2 * k],
                    out@[2 * k + 1],
                    #[trigger] pending.jumps@[k],
                ),
        decreases pending.jumps@.len() - i,
    {
        let jump: BookmarkJump = pending.jumps[i];
        out.push(
            AiCommand {
                source: jump.source,
                ack_token: None,
                origin: CommandOrigin::Bookmark,
                command: RattyAiCommand::SetMode { mode: jump.mode.to_owned() },
            },
        );
        out.push(
            AiCommand {
                source: jump.source,
                ack_token: None,
                origin: CommandOrigin::Bookmark,
                command: RattyAiCommand::SetWarp { intensity: jump.warp },
            },
        );
        i += 1;
    }
    pending.jumps.clear();
    out
}

/// A jump after a bookmark replays the view that was stored.
pub proof fn law_jump_replays_the_stored_view(
    world: BookmarkWorld,
    source: IngressSource,
    name: String,
    replace: bool,
    mode: TerminalPresentationMode,
    warp: Single,
    later_mode: TerminalPresentationMode,
    later_warp: Single,
)
    requires
        bookmarks_wf(world.entries),
        world.step(
            source,
            RattyAiCommand::Bookmark { name, replace },
            mode,
            warp,
        ).1 == Some(ReplyView::Commit),
    ensures
        ({
            let stored = world.step(
                source,
                RattyAiCommand::Bookmark { name, replace },
                mode,
                warp,
            ).0;
            let (after, reply) = stored.step(
                source,
                RattyAiCommand::BookmarkJump { name },
                later_mode,
                later_warp,
            );
            &&& reply == Some(ReplyView::Commit)
            &&& after.jumps == stored.jumps.push(
                BookmarkJump {
                    source,
                    mode: mode.name(),
                    warp: current_view(mode, warp).warp,
                },
            )
        }),
{
    let view = current_view(mode, warp);
    let after = kept(world.entries, source.slot(), name@, view);
    lemma_entry_index(world.entries, source.slot(), name@);
    lemma_entry_index(after, source.slot(), name@);
    match entry_index(world.entries, source.slot(), name@) {
        Some(i) => {
            assert(after[i].name == name@);
        },
        None => {
            assert(after[world.entries.len() as int].name == name@);
        },
    }
}

/// When a bookmark is stored: under a name of one to sixty-four bytes, over
/// another only where that was asked for, and beside at most fifteen of the
/// agent's own. It holds the mode by its name and the warp within its range.
pub proof fn law_when_a_bookmark_is_stored(
    world: BookmarkWorld,
    source: IngressSource,
    name: String,
    replace: bool,
    mode: TerminalPresentationMode,
    warp: Single,
    taken: bool,
)
    requires
        taken <==> exists|i: int|
            0 <= i < world.entries.len() && (#[trigger] world.entries[i]).namespace
                == source.slot() && world.entries[i].name == name@,
    ensures
        ({
            let (after, reply) = world.step(
                source,
                RattyAiCommand::Bookmark { name, replace },
                mode,
                warp,
            );
            let bytes = vstd::utf8::encode_utf8(name@).len();
            let full = kept_by(world.entries, source.slot()) >= 16;
            &&& reply == Some(ReplyView::Commit) <==> name@.len() > 0 && bytes <= 64 && (taken
                ==> replace) && (taken || !full)
            &&& after.jumps == world.jumps
            &&& reply == Some(ReplyView::Commit) ==> exists|i: int| {
                &&& 0 <= i < after.entries.len()
                &&& (#[trigger] after.entries[i]).namespace == source.slot()
                &&& after.entries[i].name == name@
                &&& after.entries[i].view.v == 1
                &&& mode is Flat2d ==> after.entries[i].view.mode@ == "2d"@
                &&& mode is Plane3d ==> after.entries[i].view.mode@ == "3d"@
                &&& mode is Mobius3d ==> after.entries[i].view.mode@ == "mobius"@
                &&& warp.bits <= 0x3f80_0000 ==> after.entries[i].view.warp == warp
            }
            &&& reply != Some(ReplyView::Commit) ==> after == world && (
            reply matches Some(ReplyView::Refused(action, code, _)) && action == "bookmark"@ && code
                == (if name@.len() == 0 {
                Code::BadPayload
            } else if bytes > 64 {
                Code::TooLarge
            } else if taken {
                Code::AlreadyExists
            } else {
                Code::NamespaceCap
            }))
        }),
{
    lemma_entry_index(world.entries, source.slot(), name@);
    let after = world.step(source, RattyAiCommand::Bookmark { name, replace }, mode, warp).0;
    match entry_index(world.entries, source.slot(), name@) {
        Some(i) => {
            assert(world.entries[i].name == name@);
            if world.step(source, RattyAiCommand::Bookmark { name, replace }, mode, warp).1 == Some(
                ReplyView::Commit,
            ) {
                assert(after.entries[i].name == name@);
            }
        },
        None => {
            if world.step(source, RattyAiCommand::Bookmark { name, replace }, mode, warp).1 == Some(
                ReplyView::Commit,
            ) {
                assert(after.entries[world.entries.len() as int].name == name@);
            }
        },
    }
}

/// A bookmark takes the place of the caller's own under its name, and changes
/// no other bookmark, nor another agent's of the same name.
pub proof fn law_bookmarks_are_the_callers_own(
    world: BookmarkWorld,
    source: IngressSource,
    name: String,
    replace: bool,
    mode: TerminalPresentationMode,
    warp: Single,
    at: int,
)
    requires
        0 <= at < world.entries.len(),
        world.entries[at].namespace != source.slot() || world.entries[at].name != name@,
    ensures
        world.step(
            source,
            RattyAiCommand::Bookmark { name, replace },
            mode,
            warp,
        ).0.entries[at] == world.entries[at],
        world.step(
            source,
            RattyAiCommand::Bookmark { name, replace },
            mode,
            warp,
        ).0.entries.len() <= world.entries.len() + 1,
{
    lemma_entry_index(world.entries, source.slot(), name@);
}

/// A jump goes to the caller's own bookmark of that name: its mode and its
/// warp, under the caller's authority. Without one, or with one of another
/// format, it is refused.
pub proof fn law_jumps_go_to_the_callers_bookmark(
    world: BookmarkWorld,
    source: IngressSource,
    name: String,
    mode: TerminalPresentationMode,
    warp: Single,
    at: int,
)
    requires
        bookmarks_wf(world.entries),
    ensures
        ({
            let (after, reply) = world.step(
                source,
                RattyAiCommand::BookmarkJump { name },
                mode,
                warp,
            );
            let found = 0 <= at < world.entries.len() && world.entries[at].namespace
                == source.slot() && world.entries[at].name == name@;
            let view = world.entries[at].view;
            &&& after.entries == world.entries
            &&& found && view.v == 1 ==> {
                &&& reply == Some(ReplyView::Commit)
                &&& after.jumps.len() == world.jumps.len() + 1
                &&& after.jumps.drop_last() == world.jumps
                &&& after.jumps.last().source == source
                &&& after.jumps.last().mode == view.mode
                &&& after.jumps.last().warp == view.warp
            }
            &&& found && view.v != 1 ==> after == world && (
            reply matches Some(ReplyView::Refused(action, code, _)) && action == "bookmark.jump"@
                && code == Code::Unsupported)
            &&& (forall|i: int|
                0 <= i < world.entries.len() ==> !((#[trigger] world.entries[i]).namespace
                    == source.slot() && world.entries[i].name == name@)) ==> after == world && (
            reply matches Some(ReplyView::Refused(action, code, _)) && action == "bookmark.jump"@
                && code == Code::UnknownId)
        }),
{
    lemma_entry_index(world.entries, source.slot(), name@);
    let after = world.step(source, RattyAiCommand::BookmarkJump { name }, mode, warp).0;
    if let Some(i) = entry_index(world.entries, source.slot(), name@) {
        if 0 <= at < world.entries.len() && world.entries[at].namespace == source.slot()
            && world.entries[at].name == name@ {
            assert(at == i) by {
                if at < i {
                    assert(world.entries[at].namespace != world.entries[i].namespace
                        || world.entries[at].name != world.entries[i].name);
                } else if i < at {
                    assert(world.entries[i].namespace != world.entries[at].namespace
                        || world.entries[i].name != world.entries[at].name);
                }
            }
            if world.entries[at].view.v == 1 {
                assert(after.jumps.drop_last() =~= world.jumps);
            }
        }
    }
}

/// A reset forgets every bookmark; no other command touches one.
pub proof fn law_a_reset_forgets_the_bookmarks(
    world: BookmarkWorld,
    source: IngressSource,
    command: RattyAiCommand,
    mode: TerminalPresentationMode,
    warp: Single,
)
    ensures
        command is Reset ==> world.step(source, command, mode, warp).0.entries.len() == 0
            && world.step(source, command, mode, warp).0.jumps == world.jumps && world.step(
            source,
            command,
            mode,
            warp,
        ).1 is None,
        !(command is Reset || command is Bookmark || command is BookmarkJump) ==> world.step(
            source,
            command,
            mode,
            warp,
        ) == (world, None::<ReplyView>),
{
}

/// What a jump puts on the stream: the mode, then the warp.
pub proof fn law_what_a_jump_replays(mode: AiCommand, warp: AiCommand, jump: BookmarkJump)
    requires
        replays(mode, warp, jump),
    ensures
        mode.command matches RattyAiCommand::SetMode { mode: name } && name@ == jump.mode@,
        warp.command matches RattyAiCommand::SetWarp { intensity } && intensity == jump.warp,
        mode.source == jump.source && warp.source == jump.source,
        mode.ack_token is None && warp.ack_token is None,
        mode.origin is Bookmark && warp.origin is Bookmark,
{
}

/// Commands take effect one by one, in their order.
pub proof fn law_bookmark_commands_run_in_order(
    world: BookmarkWorld,
    log: LogState,
    commands: Seq<AiCommand>,
    last: AiCommand,
    mode: TerminalPresentationMode,
    warp: Single,
)
    ensures
        bookmark_run(world, log, Seq::empty(), mode, warp) == (world, log),
        ({
            let (before, said) = bookmark_run(world, log, commands, mode, warp);
            let (after, reply) = before.step(last.source, last.command, mode, warp);
            bookmark_run(world, log, commands.push(last), mode, warp) == (
                after,
                said.answered(last.source, token_view(last.ack_token), reply),
            )
        }),
{
    assert(commands.push(last).drop_last() =~= commands);
}

/// How many bookmarks an agent has: one more with each of its own, and no more
/// with another's.
pub proof fn law_bookmarks_are_counted_by_agent(entries: Seq<EntryView>, entry: EntryView, whose: u8)
    ensures
        kept_by(Seq::empty(), whose) == 0,
        entry.namespace == whose ==> kept_by(entries.push(entry), whose) == kept_by(entries, whose)
            + 1,
        entry.namespace != whose ==> kept_by(entries.push(entry), whose) == kept_by(entries, whose),
{
    assert(entries.push(entry).drop_last() =~= entries);
}

/// Refusals say why: by name, by namespace, or by version.
pub proof fn law_bookmark_refusals_say_why(
    world: BookmarkWorld,
    source: IngressSource,
    name: String,
    replace: bool,
    mode: TerminalPresentationMode,
    warp: Single,
)
    ensures
        world.step(source, RattyAiCommand::Bookmark { name, replace }, mode, warp).1 matches Some(
            ReplyView::Refused(_, code, message),
        ) ==> {
            &&& code == Code::AlreadyExists ==> message == "bookmark '"@ + name@
                + "' exists (pass mode=replace to overwrite it)"@
            &&& code == Code::NamespaceCap ==> message == "namespace "@ + decimal(
                source.slot() as nat,
            ) + " is at its 16-bookmark limit"@
            &&& code == Code::TooLarge ==> message == "name exceeds 64 bytes"@
        },
        world.step(source, RattyAiCommand::BookmarkJump { name }, mode, warp).1 matches Some(
            ReplyView::Refused(_, code, message),
        ) ==> (code == Code::UnknownId ==> message == "no bookmark '"@ + name@
            + "' in the caller's namespace"@),
{
}

} // verus!
