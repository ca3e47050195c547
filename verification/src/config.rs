//! The settings that the decisions read.

use vstd::prelude::*;
use crate::bindings::{action_named, parse_action, BindingAction, KeyBindingConfig};
use crate::tree::{read_toml, toml_document, Tree, TreeView};

verus! {

/// `[terminal]`.
#[derive(Clone, Copy, Debug, PartialEq, Eq, Structural)]
pub struct TerminalConfig {
    /// How many terminals may live at once.
    pub max_live: usize,
    /// Columns of a fresh terminal.
    pub default_cols: u16,
    /// Scrollback rows of a fresh terminal.
    pub scrollback: usize,
}

/// `[trust.local]`: what the terminals of this process may do.
#[derive(Clone, Copy, Debug, PartialEq, Eq, Structural)]
pub struct LocalTrust {
    /// Whether they may direct the avatar.
    pub avatar_scene: bool,
}

/// `[trust]`.
#[derive(Clone, Copy, Debug, PartialEq, Eq, Structural)]
pub struct TrustConfig {
    /// `[trust.local]`.
    pub local: LocalTrust,
}

/// `[audio]`.
#[derive(Clone, Copy, Debug, PartialEq, Eq, Structural)]
pub struct AudioConfig {
    /// Whether the wire may drive the ambient bed.
    pub allow_scene_ambient: bool,
}

/// The settings.
#[derive(Clone, Copy, Debug, PartialEq, Eq, Structural)]
pub struct AppConfig {
    /// `[terminal]`.
    pub terminal: TerminalConfig,
    /// `[trust]`.
    pub trust: TrustConfig,
    /// `[audio]`.
    pub audio: AudioConfig,
}

/// The settings where a document says nothing.
pub open spec fn default_terminal() -> TerminalConfig {
    TerminalConfig { max_live: 4, default_cols: 104, scrollback: 2_000 }
}

impl Default for TerminalConfig {
    fn default() -> (config: Self)
        ensures
            config == default_terminal(),
    {
        TerminalConfig { max_live: 4, default_cols: 104, scrollback: 2_000 }
    }
}

impl Default for AppConfig {
    fn default() -> (config: Self)
        ensures
            config == (AppConfig {
                terminal: default_terminal(),
                trust: TrustConfig { local: LocalTrust { avatar_scene: true } },
                audio: AudioConfig { allow_scene_ambient: true },
            }),
    {
        AppConfig {
            terminal: TerminalConfig::default(),
            trust: TrustConfig { local: LocalTrust { avatar_scene: true } },
            audio: AudioConfig { allow_scene_ambient: true },
        }
    }
}

/// A section of a document: an absent one has no fields, and one that is not a
/// table is a fault.
pub open spec fn section(document: Option<TreeView>, name: Seq<char>) -> Result<
    Option<TreeView>,
    Seq<char>,
> {
    match document {
        Some(table) => match table.member(name) {
            None => Ok(None),
            Some(TreeView::Table(rows)) => Ok(Some(TreeView::Table(rows))),
            Some(_) => Err(name + " is not a table"@),
        },
        None => Ok(None),
    }
}

/// A yes or no of a section; absent, it is `fallback`.
pub open spec fn flag_field(table: Option<TreeView>, name: Seq<char>, fallback: bool) -> Result<
    bool,
    Seq<char>,
> {
    match table {
        Some(table) => match table.member(name) {
            None => Ok(fallback),
            Some(TreeView::Bool(value)) => Ok(value),
            Some(_) => Err(name + " is not a yes or no"@),
        },
        None => Ok(fallback),
    }
}

/// A whole number of a section, at most `max`; absent, it is `fallback`.
pub open spec fn number_field(
    table: Option<TreeView>,
    name: Seq<char>,
    fallback: u64,
    max: u64,
) -> Result<u64, Seq<char>> {
    match table {
        Some(table) => match table.member(name) {
            None => Ok(fallback),
            Some(TreeView::Number(Some(value))) => if value <= max {
                Ok(value)
            } else {
                Err(name + " is out of range"@)
            },
            Some(_) => Err(name + " is out of range"@),
        },
        None => Ok(fallback),
    }
}

/// The settings that a document gives, or the first fault in it.
pub open spec fn settings(document: TreeView) -> Result<AppConfig, Seq<char>> {
    let whole = Some(document);
    match section(whole, "terminal"@) {
        Err(fault) => Err(fault),
        Ok(terminal) => match number_field(terminal, "max_live"@, 4, usize::MAX as u64) {
            Err(fault) => Err(fault),
            Ok(max_live) => match number_field(
                terminal,
                "default_cols"@,
                104,
                u16::MAX as u64,
            ) {
                Err(fault) => Err(fault),
                Ok(default_cols) => match number_field(
                    terminal,
                    "scrollback"@,
                    2_000,
                    usize::MAX as u64,
                ) {
                    Err(fault) => Err(fault),
                    Ok(scrollback) => match section(whole, "trust"@) {
                        Err(fault) => Err(fault),
                        Ok(trust) => match section(trust, "local"@) {
                            Err(fault) => Err(fault),
                            Ok(local) => match flag_field(local, "avatar_scene"@, true) {
                                Err(fault) => Err(fault),
                                Ok(avatar_scene) => match section(whole, "audio"@) {
                                    Err(fault) => Err(fault),
                                    Ok(audio) => match flag_field(
                                        audio,
                                        "allow_scene_ambient"@,
                                        true,
                                    ) {
                                        Err(fault) => Err(fault),
                                        Ok(allow_scene_ambient) => Ok(
                                            AppConfig {
                                                terminal: TerminalConfig {
                                                    max_live: max_live as usize,
                                                    default_cols: default_cols as u16,
                                                    scrollback: scrollback as usize,
                                                },
                                                trust: TrustConfig {
                                                    local: LocalTrust { avatar_scene },
                                                },
                                                audio: AudioConfig { allow_scene_ambient },
                                            },
                                        ),
                                    },
                                },
                            },
                        },
                    },
                },
            },
        },
    }
}

fn fault(name: &str, what: &str) -> (text: String)
    ensures
        text@ == name@ + what@,
{
    let mut text = name.to_owned();
    text.append(what);
    text
}

fn read_section<'a>(document: Option<&'a Tree>, name: &str) -> (read: Result<
    Option<&'a Tree>,
    String,
>)
    ensures
        match read {
            Ok(table) => section(crate::tree::maybe_view(document), name@) == Ok::<
                Option<TreeView>,
                Seq<char>,
            >(crate::tree::maybe_view(table)),
            Err(text) => section(crate::tree::maybe_view(document), name@) == Err::<
                Option<TreeView>,
                Seq<char>,
            >(text@),
        },
{
    match document {
        Some(table) => match table.member(name) {
            None => Ok(None),
            Some(found) => match found {
                Tree::Table(_) => Ok(Some(found)),
                _ => Err(fault(name, " is not a table")),
            },
        },
        None => Ok(None),
    }
}

fn read_flag(table: Option<&Tree>, name: &str, fallback: bool) -> (read: Result<bool, String>)
    ensures
        match read {
            Ok(value) => flag_field(crate::tree::maybe_view(table), name@, fallback) == Ok::<
                bool,
                Seq<char>,
            >(value),
            Err(text) => flag_field(crate::tree::maybe_view(table), name@, fallback) == Err::<
                bool,
                Seq<char>,
            >(text@),
        },
{
    match table {
        Some(table) => match table.member(name) {
            None => Ok(fallback),
            Some(found) => match found {
                Tree::Bool(value) => Ok(*value),
                _ => Err(fault(name, " is not a yes or no")),
            },
        },
        None => Ok(fallback),
    }
}

fn read_number(table: Option<&Tree>, name: &str, fallback: u64, max: u64) -> (read: Result<
    u64,
    String,
>)
    ensures
        match read {
            Ok(value) => number_field(crate::tree::maybe_view(table), name@, fallback, max)
                == Ok::<u64, Seq<char>>(value),
            Err(text) => number_field(crate::tree::maybe_view(table), name@, fallback, max)
                == Err::<u64, Seq<char>>(text@),
        },
{
    match table {
        Some(table) => match table.member(name) {
            None => Ok(fallback),
            Some(found) => match found {
                Tree::Number(Some(value)) => if *value <= max {
                    Ok(*value)
                } else {
                    Err(fault(name, " is out of range"))
                },
                _ => Err(fault(name, " is out of range")),
            },
        },
        None => Ok(fallback),
    }
}

impl AppConfig {
    /// The settings that a document gives. What it does not mention keeps its
    /// default; a field of the wrong kind is a fault.
    pub fn from_tree(document: &Tree) -> (read: Result<AppConfig, String>)
        ensures
            match read {
                Ok(config) => settings(document@) == Ok::<AppConfig, Seq<char>>(config),
                Err(text) => settings(document@) == Err::<AppConfig, Seq<char>>(text@),
            },
    {
        let whole: Option<&Tree> = Some(document);
        let terminal = read_section(whole, "terminal")?;
        let max_live: u64 = read_number(terminal, "max_live", 4, usize::MAX as u64)?;
        let default_cols: u64 = read_number(terminal, "default_cols", 104, u16::MAX as u64)?;
        let scrollback: u64 = read_number(terminal, "scrollback", 2_000, usize::MAX as u64)?;
        let trust = read_section(whole, "trust")?;
        let local = read_section(trust, "local")?;
        let avatar_scene: bool = read_flag(local, "avatar_scene", true)?;
        let audio = read_section(whole, "audio")?;
        let allow_scene_ambient: bool = read_flag(audio, "allow_scene_ambient", true)?;
        Ok(
            AppConfig {
                terminal: TerminalConfig {
                    max_live: max_live as usize,
                    default_cols: default_cols as u16,
                    scrollback: scrollback as usize,
                },
                trust: TrustConfig { local: LocalTrust { avatar_scene } },
                audio: AudioConfig { allow_scene_ambient },
            },
        )
    }

    /// Reads the settings from a TOML text.
    pub fn from_toml_str(text: &str) -> (read: Result<AppConfig, String>)
        ensures
            match (read, toml_document(text@)) {
                (Ok(config), Ok(document)) => settings(document) == Ok::<AppConfig, Seq<char>>(
                    config,
                ),
                (Err(fault), Ok(document)) => settings(document) == Err::<AppConfig, Seq<char>>(
                    fault@,
                ),
                (Err(fault), Err(error)) => fault@ == error,
                (Ok(_), Err(_)) => false,
            },
    {
        match read_toml(text) {
            Ok(tree) => AppConfig::from_tree(&tree),
            Err(error) => Err(error),
        }
    }
}

/// A key binding's contents.
pub struct KeyBindingView {
    /// The key, perhaps with modifiers.
    pub key: Seq<char>,
    /// The modifiers.
    pub with: Seq<char>,
    /// The action.
    pub action: BindingAction,
}

impl View for KeyBindingConfig {
    type V = KeyBindingView;

    open spec fn view(&self) -> KeyBindingView {
        KeyBindingView { key: self.key@, with: self.with@, action: self.action }
    }
}

/// A text of a table; absent, it is `fallback`, if there is one.
pub open spec fn text_field(
    table: TreeView,
    name: Seq<char>,
    fallback: Option<Seq<char>>,
) -> Result<Seq<char>, Seq<char>> {
    match table.member(name) {
        Some(TreeView::Text(text)) => Ok(text),
        Some(_) => Err(name + " is not a text"@),
        None => match fallback {
            Some(text) => Ok(text),
            None => Err(name + " is missing"@),
        },
    }
}

/// The key binding that a table gives, or the first fault in it.
pub open spec fn key_binding(table: TreeView) -> Result<KeyBindingView, Seq<char>> {
    match text_field(table, "key"@, None) {
        Err(fault) => Err(fault),
        Ok(key) => match text_field(table, "with"@, Some(Seq::empty())) {
            Err(fault) => Err(fault),
            Ok(with) => match text_field(table, "action"@, None) {
                Err(fault) => Err(fault),
                Ok(name) => match action_named(name) {
                    Some(action) => Ok(KeyBindingView { key, with, action }),
                    None => Err(name + " is not an action"@),
                },
            },
        },
    }
}

/// The key bindings that a list gives, or the first fault in it.
pub open spec fn key_binding_list(items: Seq<TreeView>) -> Result<Seq<KeyBindingView>, Seq<char>>
    decreases items.len(),
{
    if items.len() == 0 {
        Ok(Seq::empty())
    } else {
        match key_binding_list(items.drop_last()) {
            Err(fault) => Err(fault),
            Ok(bindings) => match key_binding(items.last()) {
                Err(fault) => Err(fault),
                Ok(binding) => Ok(bindings.push(binding)),
            },
        }
    }
}

/// The key bindings that a document gives under `[[bindings.keys]]`, or the
/// first fault in them.
pub open spec fn key_bindings(document: TreeView) -> Result<Seq<KeyBindingView>, Seq<char>> {
    match section(Some(document), "bindings"@) {
        Err(fault) => Err(fault),
        Ok(None) => Ok(Seq::empty()),
        Ok(Some(table)) => match table.member("keys"@) {
            None => Ok(Seq::empty()),
            Some(TreeView::List(items)) => key_binding_list(items),
            Some(_) => Err("keys"@ + " is not a list"@),
        },
    }
}

/// Whether reading gave what a document says.
pub open spec fn read_as(
    read: Result<Vec<KeyBindingConfig>, String>,
    said: Result<Seq<KeyBindingView>, Seq<char>>,
) -> bool {
    match read {
        Ok(bindings) => said == Ok::<Seq<KeyBindingView>, Seq<char>>(
            bindings@.map_values(|binding: KeyBindingConfig| binding@),
        ),
        Err(fault) => said == Err::<Seq<KeyBindingView>, Seq<char>>(fault@),
    }
}

fn read_text(table: &Tree, name: &str, required: bool) -> (read: Result<String, String>)
    ensures
        ({
            let fallback = if required {
                None
            } else {
                Some(Seq::empty())
            };
            match read {
                Ok(text) => text_field(table@, name@, fallback) == Ok::<Seq<char>, Seq<char>>(
                    text@,
                ),
                Err(text) => text_field(table@, name@, fallback) == Err::<Seq<char>, Seq<char>>(
                    text@,
                ),
            }
        }),
{
    match table.member(name) {
        Some(found) => match found {
            Tree::Text(text) => Ok(text.clone()),
            _ => Err(fault(name, " is not a text")),
        },
        None => if required {
            Err(fault(name, " is missing"))
        } else {
            let text = String::new();
            assert(text@ =~= Seq::empty());
            Ok(text)
        },
    }
}

fn read_key_binding(table: &Tree) -> (read: Result<KeyBindingConfig, String>)
    ensures
        match read {
            Ok(binding) => key_binding(table@) == Ok::<KeyBindingView, Seq<char>>(binding@),
            Err(text) => key_binding(table@) == Err::<KeyBindingView, Seq<char>>(text@),
        },
{
    let key: String = read_text(table, "key", true)?;
    let with: String = read_text(table, "with", false)?;
    let name: String = read_text(table, "action", true)?;
    match parse_action(&name) {
        Some(action) => Ok(KeyBindingConfig { key, with, action }),
        None => Err(fault(&name, " is not an action")),
    }
}

proof fn lemma_first_fault(items: Seq<TreeView>, upto: int)
    requires
        0 <= upto <= items.len(),
        key_binding_list(items.take(upto)) is Err,
    ensures
        key_binding_list(items) == key_binding_list(items.take(upto)),
    decreases items.len() - upto,
{
    if upto == items.len() {
        assert(items.take(upto) =~= items);
    } else {
        assert(items.take(upto + 1).drop_last() =~= items.take(upto));
        lemma_first_fault(items, upto + 1);
    }
}

/// The key bindings that a document gives. One without them gives none; a
/// field of the wrong kind, and a name that is no action, is a fault.
pub fn key_bindings_from_tree(document: &Tree) -> (read: Result<Vec<KeyBindingConfig>, String>)
    ensures
        read_as(read, key_bindings(document@)),
{
    let mut bindings: Vec<KeyBindingConfig> = Vec::new();
    assert(bindings@.map_values(|binding: KeyBindingConfig| binding@) =~= Seq::empty());
    let table: &Tree = match read_section(Some(document), "bindings")? {
        Some(table) => table,
        None => {
            return Ok(bindings);
        },
    };
    let list: &Tree = match table.member("keys") {
        Some(list) => list,
        None => {
            return Ok(bindings);
        },
    };
    let items: &Vec<Tree> = match list.items() {
        Some(items) => items,
        None => {
            return Err(fault("keys", " is not a list"));
        },
    };
    let ghost views = list@->List_0;
    let mut i: usize = 0;
    assert(views.take(0) =~= Seq::empty());
    while i < items.len()
        invariant
            i <= items@.len() == views.len(),
            forall|j: int| 0 <= j < items@.len() ==> views[j] == (#[trigger] items@[j])@,
            key_bindings(document@) == key_binding_list(views),
            key_binding_list(views.take(i as int)) == Ok::<Seq<KeyBindingView>, Seq<char>>(
                bindings@.map_values(|binding: KeyBindingConfig| binding@),
            ),
        decreases items.len() - i,
    {
        proof {
            assert(views.take(i + 1).drop_last() =~= views.take(i as int));
            assert(views.take(i + 1).last() == items@[i as int]@);
        }
        match read_key_binding(&items[i]) {
            Ok(binding) => {
                let ghost before = bindings@.map_values(|binding: KeyBindingConfig| binding@);
                bindings.push(binding);
                assert(bindings@.map_values(|binding: KeyBindingConfig| binding@) =~= before.push(
                    binding@,
                ));
            },
            Err(text) => {
                proof {
                    lemma_first_fault(views, i + 1);
                }
                return Err(text);
            },
        }
        i += 1;
    }
    assert(views.take(i as int) =~= views);
    Ok(bindings)
}

/// Reads the key bindings from a TOML text.
pub fn key_bindings_from_toml_str(text: &str) -> (read: Result<Vec<KeyBindingConfig>, String>)
    ensures
        match toml_document(text@) {
            Ok(document) => read_as(read, key_bindings(document)),
            Err(error) => read matches Err(fault) && fault@ == error,
        },
{
    match read_toml(text) {
        Ok(tree) => key_bindings_from_tree(&tree),
        Err(error) => Err(error),
    }
}

/// What a setting is: what the document gives, where it gives it; and where it
/// does not, four terminals, 104 columns, 2000 rows of history, and leave to
/// direct the avatar and to drive the ambient bed.
pub proof fn law_settings_are_what_the_document_gives(document: TreeView)
    requires
        settings(document) is Ok,
    ensures
        ({
            let config = settings(document)->Ok_0;
            let terminal = document.member("terminal"@);
            let trust = document.member("trust"@);
            let audio = document.member("audio"@);
            &&& terminal is None ==> config.terminal.max_live == 4 && config.terminal.default_cols
                == 104 && config.terminal.scrollback == 2000
            &&& terminal matches Some(table) ==> {
                &&& number_given(table, "max_live"@, config.terminal.max_live as int, 4)
                &&& number_given(table, "default_cols"@, config.terminal.default_cols as int, 104)
                &&& number_given(table, "scrollback"@, config.terminal.scrollback as int, 2000)
            }
            &&& trust is None ==> config.trust.local.avatar_scene
            &&& trust matches Some(table) ==> (match table.member("local"@) {
                Some(local) => flag_given(
                    local,
                    "avatar_scene"@,
                    config.trust.local.avatar_scene,
                ),
                None => config.trust.local.avatar_scene,
            })
            &&& audio is None ==> config.audio.allow_scene_ambient
            &&& audio matches Some(table) ==> flag_given(
                table,
                "allow_scene_ambient"@,
                config.audio.allow_scene_ambient,
            )
        }),
{
}

/// Whether a number is the one that a table gives, or the fallback where it
/// gives none.
pub open spec fn number_given(table: TreeView, name: Seq<char>, value: int, fallback: int) -> bool {
    match table.member(name) {
        Some(TreeView::Number(Some(given))) => value == given,
        Some(_) => false,
        None => value == fallback,
    }
}

/// Whether a yes or no is the one that a table gives, or yes where it gives
/// none.
pub open spec fn flag_given(table: TreeView, name: Seq<char>, value: bool) -> bool {
    match table.member(name) {
        Some(TreeView::Bool(given)) => value == given,
        Some(_) => false,
        None => value,
    }
}

/// A document that gives nothing has nothing wrong with it.
pub proof fn law_an_empty_document_is_fine(document: TreeView)
    requires
        document.member("terminal"@) is None,
        document.member("trust"@) is None,
        document.member("audio"@) is None,
        document.member("bindings"@) is None,
    ensures
        settings(document) is Ok,
        key_bindings(document) matches Ok(bindings) && bindings.len() == 0,
{
}

/// What a key binding is: the key, the modifiers, none where none are given, and
/// the action that its table gives by name.
pub proof fn law_key_bindings_are_what_the_document_gives(items: Seq<TreeView>, at: int)
    requires
        key_binding_list(items) is Ok,
        0 <= at < items.len(),
    ensures
        key_binding_list(items)->Ok_0.len() == items.len(),
        ({
            let binding = key_binding_list(items)->Ok_0[at];
            let table = items[at];
            &&& table.member("key"@) == Some(TreeView::Text(binding.key))
            &&& match table.member("with"@) {
                Some(given) => given == TreeView::Text(binding.with),
                None => binding.with.len() == 0,
            }
            &&& table.member("action"@) matches Some(TreeView::Text(name)) && action_named(name)
                == Some(binding.action)
        }),
    decreases items.len(),
{
    if at < items.len() - 1 {
        law_key_bindings_are_what_the_document_gives(items.drop_last(), at);
    }
    lemma_bindings_counted(items);
}

proof fn lemma_bindings_counted(items: Seq<TreeView>)
    requires
        key_binding_list(items) is Ok,
    ensures
        key_binding_list(items)->Ok_0.len() == items.len(),
    decreases items.len(),
{
    if items.len() > 0 {
        lemma_bindings_counted(items.drop_last());
    }
}

/// What was read is what the document says, or its fault.
pub proof fn law_what_was_read_is_what_is_said(
    read: Result<Vec<KeyBindingConfig>, String>,
    said: Result<Seq<KeyBindingView>, Seq<char>>,
    at: int,
)
    requires
        read_as(read, said),
    ensures
        read is Ok <==> said is Ok,
        read matches Err(fault) ==> said->Err_0 == fault@,
        read matches Ok(bindings) ==> bindings@.len() == said->Ok_0.len() && (0 <= at
            < bindings@.len() ==> said->Ok_0[at].key == bindings@[at].key@ && said->Ok_0[at].with
            == bindings@[at].with@ && said->Ok_0[at].action == bindings@[at].action),
{
}

} // verus!
