//! An in-memory model of the host's buffers.
//!
//! The model holds what the host shows: named buffers with string properties,
//! a nick list and printed lines, plus the host's main buffer. Every change is
//! one [`HostAction`]; the model applies it and appends it to a journal that the
//! integration layer drains and replays on the real host.

use vstd::prelude::*;
use vstd::string::*;
use crate::seqs::{first_index, lemma_first_index};

verus! {

/// Names a buffer of the host. Handles are never reused: a closed buffer keeps
/// its slot, so a stale handle is recognised as closed.
#[derive(Clone, Copy, PartialEq, Eq, Structural, Debug)]
pub struct BufferHandle {
    pub index: usize,
}

/// The notification class that a printed line is tagged with.
#[derive(Clone, Copy, PartialEq, Eq, Structural, Debug)]
pub enum NotifyTag {
    Highlight,
    Private,
    Message,
    Silent,
}

/// A printed line: an optional timestamp in seconds, and the text.
#[derive(Clone, Debug, PartialEq, Eq)]
pub struct Line {
    pub date: Option<i64>,
    pub text: String,
}

/// A printed line over its text.
pub struct LineView {
    pub date: Option<i64>,
    pub text: Seq<char>,
}

impl View for Line {
    type V = LineView;

    open spec fn view(&self) -> LineView {
        LineView { date: self.date, text: self.text@ }
    }
}

/// A string property of a buffer.
#[derive(Clone, Debug, PartialEq, Eq)]
pub struct Property {
    pub key: String,
    pub value: String,
}

/// One change to the host.
#[derive(Clone, Debug, PartialEq, Eq)]
pub enum HostAction {
    Create { handle: BufferHandle, name: String },
    Close { handle: BufferHandle },
    SetProperty { handle: BufferHandle, key: String, value: String },
    AddNick { handle: BufferHandle, nick: String },
    RemoveNick { handle: BufferHandle, nick: String },
    Print { handle: BufferHandle, date: Option<i64>, tag: Option<NotifyTag>, text: String },
    Clear { handle: BufferHandle },
    PrintMain { text: String },
}

/// One change to the host over the texts that it carries.
pub enum ActionView {
    Create { handle: BufferHandle, name: Seq<char> },
    Close { handle: BufferHandle },
    SetProperty { handle: BufferHandle, key: Seq<char>, value: Seq<char> },
    AddNick { handle: BufferHandle, nick: Seq<char> },
    RemoveNick { handle: BufferHandle, nick: Seq<char> },
    Print { handle: BufferHandle, date: Option<i64>, tag: Option<NotifyTag>, text: Seq<char> },
    Clear { handle: BufferHandle },
    PrintMain { text: Seq<char> },
}

impl View for HostAction {
    type V = ActionView;

    open spec fn view(&self) -> ActionView {
        match *self {
            HostAction::Create { handle, name } => ActionView::Create { handle, name: name@ },
            HostAction::Close { handle } => ActionView::Close { handle },
            HostAction::SetProperty { handle, key, value } => ActionView::SetProperty {
                handle,
                key: key@,
                value: value@,
            },
            HostAction::AddNick { handle, nick } => ActionView::AddNick { handle, nick: nick@ },
            HostAction::RemoveNick { handle, nick } => ActionView::RemoveNick {
                handle,
                nick: nick@,
            },
            HostAction::Print { handle, date, tag, text } => ActionView::Print {
                handle,
                date,
                tag,
                text: text@,
            },
            HostAction::Clear { handle } => ActionView::Clear { handle },
            HostAction::PrintMain { text } => ActionView::PrintMain { text: text@ },
        }
    }
}

/// What a buffer shows.
pub struct BufferView {
    pub name: Seq<char>,
    pub open: bool,
    pub props: Map<Seq<char>, Seq<char>>,
    pub nicks: Seq<Seq<char>>,
    pub lines: Seq<LineView>,
}

/// The first position of `nick` in `nicks`, or the length if it is absent.
pub open spec fn nick_position(nicks: Seq<Seq<char>>, nick: Seq<char>) -> int {
    first_index(nicks, |held: Seq<char>| held == nick)
}

/// `nicks` without the first occurrence of `nick`.
pub open spec fn without_nick(nicks: Seq<Seq<char>>, nick: Seq<char>) -> Seq<Seq<char>> {
    let at = nick_position(nicks, nick);
    if 0 <= at < nicks.len() {
        nicks.remove(at)
    } else {
        nicks
    }
}

impl BufferView {
    /// A new buffer: open, and empty but for its name.
    pub open spec fn fresh(name: Seq<char>) -> BufferView {
        BufferView {
            name,
            open: true,
            props: Map::empty(),
            nicks: Seq::empty(),
            lines: Seq::empty(),
        }
    }
}

/// The whole host: its buffers by handle, the main buffer's lines, and the
/// journal of actions not yet handed to the integration layer.
pub struct HostView {
    pub buffers: Seq<BufferView>,
    pub main: Seq<LineView>,
    pub journal: Seq<ActionView>,
}

impl HostView {
    /// The handle names a buffer, and the buffer is open.
    pub open spec fn is_open(self, handle: BufferHandle) -> bool {
        handle.index < self.buffers.len() && self.buffers[handle.index as int].open
    }

    /// The buffer that the handle names.
    pub open spec fn buffer(self, handle: BufferHandle) -> BufferView {
        self.buffers[handle.index as int]
    }

    /// `handle` names the open buffer called `name`.
    pub open spec fn has_name(self, handle: BufferHandle, name: Seq<char>) -> bool {
        self.is_open(handle) && self.buffer(handle).name == name
    }

    /// The open buffer called `name`, where there is one.
    pub open spec fn named(self, name: Seq<char>) -> BufferHandle {
        choose|handle: BufferHandle| self.has_name(handle, name)
    }

    /// The handle that the next buffer will get.
    pub open spec fn fresh(self) -> BufferHandle {
        BufferHandle { index: self.buffers.len() as usize }
    }

    /// No open buffer is called `name`.
    pub open spec fn name_free(self, name: Seq<char>) -> bool {
        forall|i: int|
            0 <= i < self.buffers.len() ==> !((#[trigger] self.buffers[i]).open
                && self.buffers[i].name == name)
    }

    /// Open buffers have distinct names.
    pub open spec fn wf(self) -> bool {
        forall|i: int, j: int|
            0 <= i < j < self.buffers.len() && (#[trigger] self.buffers[i]).open && (
            #[trigger] self.buffers[j]).open ==> self.buffers[i].name != self.buffers[j].name
    }

    /// The host with `buffer` in the place that the handle names.
    pub open spec fn with_buffer(self, handle: BufferHandle, buffer: BufferView) -> HostView {
        HostView { buffers: self.buffers.update(handle.index as int, buffer), ..self }
    }

    /// The buffers and main lines after `action`, which changes nothing if it
    /// names a buffer that is not open or creates one whose name is taken.
    pub open spec fn shown_after(self, action: ActionView) -> HostView {
        match action {
            ActionView::Create { handle, name } => if handle.index == self.buffers.len()
                && self.name_free(name) {
                HostView { buffers: self.buffers.push(BufferView::fresh(name)), ..self }
            } else {
                self
            },
            ActionView::PrintMain { text } => HostView {
                main: self.main.push(LineView { date: None, text }),
                ..self
            },
            ActionView::Close { handle } => if self.is_open(handle) {
                self.with_buffer(handle, BufferView { open: false, ..self.buffer(handle) })
            } else {
                self
            },
            ActionView::SetProperty { handle, key, value } => if self.is_open(handle) {
                self.with_buffer(
                    handle,
                    BufferView {
                        props: self.buffer(handle).props.insert(key, value),
                        ..self.buffer(handle)
                    },
                )
            } else {
                self
            },
            ActionView::AddNick { handle, nick } => if self.is_open(handle) {
                self.with_buffer(
                    handle,
                    BufferView {
                        nicks: self.buffer(handle).nicks.push(nick),
                        ..self.buffer(handle)
                    },
                )
            } else {
                self
            },
            ActionView::RemoveNick { handle, nick } => if self.is_open(handle) {
                self.with_buffer(
                    handle,
                    BufferView {
                        nicks: without_nick(self.buffer(handle).nicks, nick),
                        ..self.buffer(handle)
                    },
                )
            } else {
                self
            },
            ActionView::Print { handle, date, tag, text } => if self.is_open(handle) {
                self.with_buffer(
                    handle,
                    BufferView {
                        lines: self.buffer(handle).lines.push(LineView { date, text }),
                        ..self.buffer(handle)
                    },
                )
            } else {
                self
            },
            ActionView::Clear { handle } => if self.is_open(handle) {
                self.with_buffer(
                    handle,
                    BufferView { lines: Seq::empty(), ..self.buffer(handle) },
                )
            } else {
                self
            },
        }
    }

    /// The host after `action`: the change is shown and the action is recorded.
    pub open spec fn after(self, action: ActionView) -> HostView {
        HostView { journal: self.journal.push(action), ..self.shown_after(action) }
    }

    /// The host after each of `actions` in turn.
    pub open spec fn after_all(self, actions: Seq<ActionView>) -> HostView
        decreases actions.len(),
    {
        if actions.len() == 0 {
            self
        } else {
            self.after_all(actions.drop_last()).after(actions.last())
        }
    }
}

/// The properties as a map, where a later entry for a key wins.
pub open spec fn props_map(props: Seq<Property>) -> Map<Seq<char>, Seq<char>>
    decreases props.len(),
{
    if props.len() == 0 {
        Map::empty()
    } else {
        props_map(props.drop_last()).insert(props.last().key@, props.last().value@)
    }
}

/// The nicks as texts.
pub open spec fn nick_views(nicks: Seq<String>) -> Seq<Seq<char>> {
    Seq::new(nicks.len(), |i: int| nicks[i]@)
}

/// The lines over their texts.
pub open spec fn line_views(lines: Seq<Line>) -> Seq<LineView> {
    Seq::new(lines.len(), |i: int| lines[i]@)
}

/// The actions over their texts.
pub open spec fn action_views(actions: Seq<HostAction>) -> Seq<ActionView> {
    Seq::new(actions.len(), |i: int| actions[i]@)
}

/// A buffer of the host as the model stores it.
#[derive(Clone, Debug, PartialEq, Eq)]
pub struct HostBuffer {
    pub name: String,
    pub open: bool,
    pub props: Vec<Property>,
    pub nicks: Vec<String>,
    pub lines: Vec<Line>,
}

impl View for HostBuffer {
    type V = BufferView;

    open spec fn view(&self) -> BufferView {
        BufferView {
            name: self.name@,
            open: self.open,
            props: props_map(self.props@),
            nicks: nick_views(self.nicks@),
            lines: line_views(self.lines@),
        }
    }
}

/// What the buffers show, handle by handle.
pub open spec fn buffer_views(buffers: Seq<HostBuffer>) -> Seq<BufferView> {
    Seq::new(buffers.len(), |i: int| buffers[i]@)
}

/// The model of the host.
#[derive(Clone, Debug, PartialEq, Eq)]
pub struct Host {
    pub buffers: Vec<HostBuffer>,
    pub main: Vec<Line>,
    pub journal: Vec<HostAction>,
}

impl View for Host {
    type V = HostView;

    open spec fn view(&self) -> HostView {
        HostView {
            buffers: buffer_views(self.buffers@),
            main: line_views(self.main@),
            journal: action_views(self.journal@),
        }
    }
}

/// Replacing the last entry for a key is writing the key.
proof fn lemma_props_replace(props: Seq<Property>, i: int, p: Property)
    requires
        0 <= i < props.len(),
        props[i].key@ == p.key@,
        forall|j: int| i < j < props.len() ==> (#[trigger] props[j]).key@ != p.key@,
    ensures
        props_map(props.update(i, p)) == props_map(props).insert(p.key@, p.value@),
    decreases props.len(),
{
    let q = props.update(i, p);
    if i == props.len() - 1 {
        assert(q.drop_last() == props.drop_last());
        assert(props_map(q) =~= props_map(props).insert(p.key@, p.value@));
    } else {
        lemma_props_replace(props.drop_last(), i, p);
        assert(q.drop_last() == props.drop_last().update(i, p));
        assert(q.last() == props.last());
        assert(props.last().key@ != p.key@);
        assert(props_map(q) =~= props_map(props).insert(p.key@, p.value@));
    }
}

/// A key without an entry is not in the map.
proof fn lemma_props_absent(props: Seq<Property>, key: Seq<char>)
    requires
        forall|j: int| 0 <= j < props.len() ==> (#[trigger] props[j]).key@ != key,
    ensures
        !props_map(props).contains_key(key),
    decreases props.len(),
{
    if props.len() > 0 {
        lemma_props_absent(props.drop_last(), key);
    }
}

/// The last entry for a key gives the key its value.
proof fn lemma_props_last_match(props: Seq<Property>, i: int)
    requires
        0 <= i < props.len(),
        forall|j: int| i < j < props.len() ==> (#[trigger] props[j]).key@ != props[i].key@,
    ensures
        props_map(props).contains_key(props[i].key@),
        props_map(props)[props[i].key@] == props[i].value@,
    decreases props.len(),
{
    if i < props.len() - 1 {
        lemma_props_last_match(props.drop_last(), i);
    }
}

impl HostView {
    /// Every action keeps the names of the open buffers distinct.
    pub proof fn lemma_after_wf(self, action: ActionView)
        requires
            self.wf(),
        ensures
            self.after(action).wf(),
            self.after(action).buffers.len() >= self.buffers.len(),
    {
        let next = self.after(action);
        assert forall|i: int, j: int|
            0 <= i < j < next.buffers.len() && (#[trigger] next.buffers[i]).open && (
            #[trigger] next.buffers[j]).open implies next.buffers[i].name
            != next.buffers[j].name by {
            if j < self.buffers.len() {
                assert(self.buffers[i].open && self.buffers[j].open);
                assert(next.buffers[i].name == self.buffers[i].name);
                assert(next.buffers[j].name == self.buffers[j].name);
            } else {
                assert(self.buffers[i].open);
            }
        }
    }
}

/// The index of the last property whose key is `key`.
fn find_property(props: &Vec<Property>, key: &String) -> (found: Option<usize>)
    ensures
        match found {
            Some(i) => i < props@.len() && props@[i as int].key@ == key@ && forall|j: int|
                i < j < props@.len() ==> (#[trigger] props@[j]).key@ != key@,
            None => forall|j: int| 0 <= j < props@.len() ==> (#[trigger] props@[j]).key@ != key@,
        },
{
    let mut i: usize = props.len();
    while i > 0
        invariant
            i <= props@.len(),
            forall|j: int| i <= j < props@.len() ==> (#[trigger] props@[j]).key@ != key@,
        decreases i,
    {
        i = i - 1;
        if props[i].key == *key {
            return Some(i);
        }
    }
    None
}

/// The first position of `nick` in `nicks`, or their number if it is absent.
fn find_nick(nicks: &Vec<String>, nick: &String) -> (at: usize)
    ensures
        at <= nicks@.len(),
        at == nick_position(nick_views(nicks@), nick@),
{
    let mut i: usize = 0;
    while i < nicks.len() && !(nicks[i] == *nick)
        invariant
            i <= nicks@.len(),
            forall|j: int| 0 <= j < i ==> nick_views(nicks@)[j] != nick@,
        decreases nicks@.len() - i,
    {
        i = i + 1;
    }
    proof {
        lemma_first_index(nick_views(nicks@), |held: Seq<char>| held == nick@, i as int);
    }
    i
}

impl Host {
    /// A host with no buffers and nothing printed.
    pub fn new() -> (host: Host)
        ensures
            host@.buffers.len() == 0,
            host@.main.len() == 0,
            host@.journal.len() == 0,
            host@.wf(),
    {
        Host { buffers: Vec::new(), main: Vec::new(), journal: Vec::new() }
    }

    /// The handle of the open buffer called `name`, if there is one.
    pub fn search(&self, name: &str) -> (found: Option<BufferHandle>)
        ensures
            match found {
                Some(handle) => self@.has_name(handle, name@),
                None => self@.name_free(name@),
            },
    {
        let wanted = String::from_str(name);
        let mut i: usize = 0;
        while i < self.buffers.len()
            invariant
                i <= self.buffers@.len(),
                wanted@ == name@,
                forall|j: int|
                    0 <= j < i ==> !((#[trigger] self@.buffers[j]).open && self@.buffers[j].name
                        == name@),
            decreases self.buffers@.len() - i,
        {
            if self.buffers[i].open && self.buffers[i].name == wanted {
                return Some(BufferHandle { index: i });
            }
            i = i + 1;
        }
        None
    }

    /// Creates an open, empty buffer called `name`, unless an open buffer
    /// already has that name.
    pub fn create(&mut self, name: &str) -> (created: Option<BufferHandle>)
        ensures
            match created {
                Some(handle) => old(self)@.name_free(name@) && handle.index == old(
                    self,
                )@.buffers.len() && final(self)@ == old(self)@.after(
                    ActionView::Create { handle, name: name@ },
                ),
                None => !old(self)@.name_free(name@) && final(self)@ == old(self)@,
            },
            old(self)@.wf() ==> final(self)@.wf(),
    {
        if self.search(name).is_some() {
            return None;
        }
        let handle = BufferHandle { index: self.buffers.len() };
        self.buffers.push(
            HostBuffer {
                name: String::from_str(name),
                open: true,
                props: Vec::new(),
                nicks: Vec::new(),
                lines: Vec::new(),
            },
        );
        self.journal.push(HostAction::Create { handle, name: String::from_str(name) });
        proof {
            let goal = old(self)@.after(ActionView::Create { handle, name: name@ });
            assert(final(self)@.buffers.last().props =~= Map::empty());
            assert(final(self)@.buffers.last().nicks =~= Seq::empty());
            assert(final(self)@.buffers.last().lines =~= Seq::empty());
            assert(final(self)@.buffers =~= goal.buffers);
            assert(final(self)@.journal =~= goal.journal);
        }
        Some(handle)
    }
    /// Sets the property `key` of the buffer to `value`; the last write wins.
    pub fn set_property(&mut self, handle: BufferHandle, key: &str, value: &str)
        requires
            old(self)@.is_open(handle),
        ensures
            final(self)@ == old(self)@.after(
                ActionView::SetProperty { handle, key: key@, value: value@ },
            ),
    {
        let owned = String::from_str(key);
        let property = Property { key: String::from_str(key), value: String::from_str(value) };
        let ghost before = self.buffers@[handle.index as int].props@;
        match find_property(&self.buffers[handle.index].props, &owned) {
            Some(i) => {
                proof {
                    lemma_props_replace(before, i as int, property);
                }
                self.buffers[handle.index].props[i] = property;
            },
            None => {
                self.buffers[handle.index].props.push(property);
                proof {
                    assert(before.push(property).drop_last() == before);
                }
            },
        }
        self.journal.push(
            HostAction::SetProperty {
                handle,
                key: String::from_str(key),
                value: String::from_str(value),
            },
        );
        proof {
            let goal = old(self)@.after(
                ActionView::SetProperty { handle, key: key@, value: value@ },
            );
            assert(final(self)@.buffers =~= goal.buffers);
            assert(final(self)@.journal =~= goal.journal);
        }
    }

    /// The value of the property `key` of the buffer, if it was ever set.
    pub fn get_property(&self, handle: BufferHandle, key: &str) -> (value: Option<String>)
        requires
            self@.is_open(handle),
        ensures
            match value {
                Some(text) => self@.buffer(handle).props.contains_key(key@) && self@.buffer(
                    handle,
                ).props[key@] == text@,
                None => !self@.buffer(handle).props.contains_key(key@),
            },
    {
        let owned = String::from_str(key);
        let props = &self.buffers[handle.index].props;
        match find_property(props, &owned) {
            Some(i) => {
                proof {
                    lemma_props_last_match(props@, i as int);
                }
                Some(props[i].value.clone())
            },
            None => {
                proof {
                    lemma_props_absent(props@, key@);
                }
                None
            },
        }
    }

    /// Appends `nick` to the buffer's nick list.
    pub fn add_nick(&mut self, handle: BufferHandle, nick: &str)
        requires
            old(self)@.is_open(handle),
        ensures
            final(self)@ == old(self)@.after(ActionView::AddNick { handle, nick: nick@ }),
    {
        self.buffers[handle.index].nicks.push(String::from_str(nick));
        self.journal.push(HostAction::AddNick { handle, nick: String::from_str(nick) });
        proof {
            let goal = old(self)@.after(ActionView::AddNick { handle, nick: nick@ });
            assert(final(self)@.buffer(handle).nicks =~= goal.buffer(handle).nicks);
            assert(final(self)@.buffers =~= goal.buffers);
            assert(final(self)@.journal =~= goal.journal);
        }
    }

    /// Removes the first occurrence of `nick` from the buffer's nick list, if
    /// there is one.
    pub fn remove_nick(&mut self, handle: BufferHandle, nick: &str)
        requires
            old(self)@.is_open(handle),
        ensures
            final(self)@ == old(self)@.after(ActionView::RemoveNick { handle, nick: nick@ }),
    {
        let owned = String::from_str(nick);
        let i = find_nick(&self.buffers[handle.index].nicks, &owned);
        if i < self.buffers[handle.index].nicks.len() {
            self.buffers[handle.index].nicks.remove(i);
        }
        self.journal.push(HostAction::RemoveNick { handle, nick: String::from_str(nick) });
        proof {
            let goal = old(self)@.after(ActionView::RemoveNick { handle, nick: nick@ });
            assert(final(self)@.buffer(handle).nicks =~= goal.buffer(handle).nicks);
            assert(final(self)@.buffers =~= goal.buffers);
            assert(final(self)@.journal =~= goal.journal);
        }
    }

    /// Prints a line to the buffer, tagged for notification with `tag`.
    pub fn print(
        &mut self,
        handle: BufferHandle,
        date: Option<i64>,
        tag: Option<NotifyTag>,
        text: &str,
    )
        requires
            old(self)@.is_open(handle),
        ensures
            final(self)@ == old(self)@.after(ActionView::Print { handle, date, tag, text: text@ }),
    {
        self.buffers[handle.index].lines.push(Line { date, text: String::from_str(text) });
        self.journal.push(HostAction::Print { handle, date, tag, text: String::from_str(text) });
        proof {
            let goal = old(self)@.after(ActionView::Print { handle, date, tag, text: text@ });
            assert(final(self)@.buffer(handle).lines =~= goal.buffer(handle).lines);
            assert(final(self)@.buffers =~= goal.buffers);
            assert(final(self)@.journal =~= goal.journal);
        }
    }

    /// Removes every line of the buffer.
    pub fn clear(&mut self, handle: BufferHandle)
        requires
            old(self)@.is_open(handle),
        ensures
            final(self)@ == old(self)@.after(ActionView::Clear { handle }),
    {
        self.buffers[handle.index].lines.clear();
        self.journal.push(HostAction::Clear { handle });
        proof {
            let goal = old(self)@.after(ActionView::Clear { handle });
            assert(final(self)@.buffer(handle).lines =~= goal.buffer(handle).lines);
            assert(final(self)@.buffers =~= goal.buffers);
            assert(final(self)@.journal =~= goal.journal);
        }
    }

    /// Closes the buffer. Its handle stays closed for good.
    pub fn close(&mut self, handle: BufferHandle)
        requires
            old(self)@.is_open(handle),
        ensures
            final(self)@ == old(self)@.after(ActionView::Close { handle }),
    {
        self.buffers[handle.index].open = false;
        self.journal.push(HostAction::Close { handle });
        proof {
            let goal = old(self)@.after(ActionView::Close { handle });
            assert(final(self)@.buffers =~= goal.buffers);
            assert(final(self)@.journal =~= goal.journal);
        }
    }

    /// Prints an undated line to the host's main buffer.
    pub fn print_main(&mut self, text: &str)
        ensures
            final(self)@ == old(self)@.after(ActionView::PrintMain { text: text@ }),
    {
        self.main.push(Line { date: None, text: String::from_str(text) });
        self.journal.push(HostAction::PrintMain { text: String::from_str(text) });
        proof {
            let goal = old(self)@.after(ActionView::PrintMain { text: text@ });
            assert(final(self)@.main =~= goal.main);
            assert(final(self)@.buffers =~= goal.buffers);
            assert(final(self)@.journal =~= goal.journal);
        }
    }

    /// Whether `handle` names an open buffer.
    pub fn is_open(&self, handle: BufferHandle) -> (open: bool)
        ensures
            open == self@.is_open(handle),
    {
        handle.index < self.buffers.len() && self.buffers[handle.index].open
    }

    /// Whether the open buffers have distinct names, as they have in every
    /// host that was changed through these operations only.
    pub fn check(&self) -> (ok: bool)
        ensures
            ok == self@.wf(),
    {
        let mut j: usize = 0;
        while j < self.buffers.len()
            invariant
                j <= self.buffers@.len(),
                forall|a: int, b: int|
                    0 <= a < b < j && (#[trigger] self@.buffers[a]).open && (
                    #[trigger] self@.buffers[b]).open ==> self@.buffers[a].name
                        != self@.buffers[b].name,
            decreases self.buffers@.len() - j,
        {
            if self.buffers[j].open {
                let mut i: usize = 0;
                while i < j
                    invariant
                        i <= j < self.buffers@.len(),
                        self@.buffers[j as int].open,
                        forall|a: int|
                            0 <= a < i && (#[trigger] self@.buffers[a]).open
                                ==> self@.buffers[a].name != self@.buffers[j as int].name,
                    decreases j - i,
                {
                    if self.buffers[i].open && self.buffers[i].name == self.buffers[j].name {
                        proof {
                            assert(self@.buffers[i as int].open && self@.buffers[j as int].open);
                            assert(self@.buffers[i as int].name == self@.buffers[j as int].name);
                        }
                        return false;
                    }
                    i = i + 1;
                }
            }
            j = j + 1;
        }
        true
    }

    /// Hands out the recorded actions, oldest first, and empties the journal.
    pub fn take_journal(&mut self) -> (actions: Vec<HostAction>)
        ensures
            action_views(actions@) == old(self)@.journal,
            final(self)@ == (HostView { journal: Seq::empty(), ..old(self)@ }),
    {
        let mut actions: Vec<HostAction> = Vec::new();
        std::mem::swap(&mut actions, &mut self.journal);
        proof {
            assert(final(self)@.journal =~= Seq::empty());
        }
        actions
    }
}

/// The action sets the property `key` of the buffer.
pub open spec fn sets_property(action: ActionView, handle: BufferHandle, key: Seq<char>) -> bool {
    match action {
        ActionView::SetProperty { handle: buffer, key: set, .. } => buffer == handle && set == key,
        _ => false,
    }
}

/// None of the actions closes a buffer.
pub open spec fn closes_nothing(actions: Seq<ActionView>) -> bool {
    forall|i: int| 0 <= i < actions.len() ==> !((#[trigger] actions[i]) is Close)
}

impl HostView {
    /// Where names are distinct, the open buffer called `name` is the only one.
    pub proof fn lemma_named(self, handle: BufferHandle, name: Seq<char>)
        requires
            self.wf(),
            self.has_name(handle, name),
        ensures
            self.named(name) == handle,
            !self.name_free(name),
    {
        let other = self.named(name);
        assert(self.has_name(other, name));
        assert(self.buffers[handle.index as int].open);
        assert(self.buffers[other.index as int].open);
        if other.index < handle.index {
            assert(self.buffers[other.index as int].name != self.buffers[handle.index as int].name);
        } else if handle.index < other.index {
            assert(self.buffers[handle.index as int].name != self.buffers[other.index as int].name);
        }
    }

    /// Doing one action is doing the sequence that holds only it.
    pub proof fn lemma_after_one(self, action: ActionView)
        ensures
            self.after_all(seq![action]) == self.after(action),
    {
        assert(seq![action].drop_last() =~= Seq::<ActionView>::empty());
        assert(self.after_all(seq![action].drop_last()) == self);
    }

    /// Doing two sequences in turn is doing their concatenation.
    pub proof fn lemma_after_both(self, first: Seq<ActionView>, second: Seq<ActionView>)
        ensures
            self.after_all(first + second) == self.after_all(first).after_all(second),
        decreases second.len(),
    {
        if second.len() == 0 {
            assert(first + second =~= first);
        } else {
            self.lemma_after_both(first, second.drop_last());
            assert((first + second).drop_last() =~= first + second.drop_last());
            assert((first + second).last() == second.last());
        }
    }

    /// Doing a sequence and one more action is doing the longer sequence.
    pub proof fn lemma_after_push(self, actions: Seq<ActionView>, action: ActionView)
        ensures
            self.after_all(actions.push(action)) == self.after_all(actions).after(action),
    {
        assert(actions.push(action).drop_last() =~= actions);
    }

    /// The last value that a sequence of actions sets for a property of an
    /// open buffer is the property's value afterwards, if no action closes
    /// anything.
    pub proof fn lemma_last_set_wins(
        self,
        actions: Seq<ActionView>,
        at: int,
        handle: BufferHandle,
        key: Seq<char>,
        value: Seq<char>,
    )
        requires
            self.is_open(handle),
            closes_nothing(actions),
            0 <= at < actions.len(),
            actions[at] == (ActionView::SetProperty { handle, key, value }),
            forall|i: int|
                at < i < actions.len() ==> !sets_property(#[trigger] actions[i], handle, key),
        ensures
            self.after_all(actions).is_open(handle),
            self.after_all(actions).buffer(handle).props.contains_key(key),
            self.after_all(actions).buffer(handle).props[key] == value,
        decreases actions.len(),
    {
        let before = self.after_all(actions.drop_last());
        self.lemma_after_all_keeps(actions.drop_last());
        assert(self.has_name(handle, self.buffer(handle).name));
        assert(before.is_open(handle));
        assert(!(actions.last() is Close));
        if at < actions.len() - 1 {
            assert forall|i: int| at < i < actions.drop_last().len() implies !sets_property(
                #[trigger] actions.drop_last()[i],
                handle,
                key,
            ) by {
                assert(actions.drop_last()[i] == actions[i]);
            }
            assert(actions.drop_last()[at] == actions[at]);
            self.lemma_last_set_wins(actions.drop_last(), at, handle, key, value);
            assert(!sets_property(actions.last(), handle, key));
        }
    }

    /// Actions that close nothing keep every open buffer open under its
    /// name, keep the names of open buffers distinct, and add only to the
    /// journal.
    pub proof fn lemma_after_all_keeps(self, actions: Seq<ActionView>)
        requires
            closes_nothing(actions),
        ensures
            self.after_all(actions).buffers.len() >= self.buffers.len(),
            forall|handle: BufferHandle, name: Seq<char>| #[trigger]
                self.has_name(handle, name) ==> self.after_all(actions).has_name(handle, name),
            self.wf() ==> self.after_all(actions).wf(),
            self.after_all(actions).journal == self.journal + actions,
        decreases actions.len(),
    {
        if actions.len() > 0 {
            let before = self.after_all(actions.drop_last());
            self.lemma_after_all_keeps(actions.drop_last());
            assert(!(actions.last() is Close));
            if self.wf() {
                before.lemma_after_wf(actions.last());
            }
            assert forall|handle: BufferHandle, name: Seq<char>| #[trigger]
                self.has_name(handle, name) implies self.after_all(actions).has_name(
                handle,
                name,
            ) by {
                assert(before.has_name(handle, name));
            }
            assert(self.after_all(actions).journal =~= self.journal + actions);
        } else {
            assert(self.after_all(actions).journal =~= self.journal + actions);
        }
    }
}

} // verus!
