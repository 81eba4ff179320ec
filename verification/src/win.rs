//! Which window types are registered, and which windows are open or hidden.
use vstd::prelude::*;

use crate::keyed::{keyed, last_named, names_distinct, unnamed, lemma_keyed_absent, lemma_keyed_last, lemma_keyed_push};
use crate::labels::{names, other_than, without, lemma_without, lemma_without_is_filter, lemma_without_twice, lemma_without_undoes_push, holds_label, without_label};
use crate::text::{decimal, push_decimal};

verus! {

/// Why a window command failed.
#[derive(Debug, Clone, PartialEq, Eq)]
pub enum WinError {
    MissOptions(String),
    AlreadyExist(String),
    AlreadyOpen(String),
    AlreadyHide(String),
    NotRegister(String),
    OpenWindowFail(String, String),
    CloseWindowFail(String, String),
    HideWindowFail(String, String),
}

impl WinError {
    /// The text that describes the error.
    pub open spec fn text(self) -> Seq<char> {
        match self {
            WinError::MissOptions(a) => "Options `"@ + a@ + "` is not find"@,
            WinError::AlreadyExist(a) => a@ + " Already exist"@,
            WinError::AlreadyOpen(a) => a@ + " Already open"@,
            WinError::AlreadyHide(a) => a@ + " Already hide"@,
            WinError::NotRegister(a) => a@ + " Not register"@,
            WinError::OpenWindowFail(a, b) => a@ + " open fail: "@ + b@,
            WinError::CloseWindowFail(a, b) => a@ + " close faill: "@ + b@,
            WinError::HideWindowFail(a, b) => a@ + " hide faill: "@ + b@,
        }
    }

    /// The text that describes the error.
    pub fn message(&self) -> (s: String)
        ensures
            s@ == self.text(),
    {
        match self {
            WinError::MissOptions(a) => {
                let mut s = String::from_str("Options `");
                s.append(a.as_str());
                s.append("` is not find");
                s
            },
            WinError::AlreadyExist(a) => a.clone().concat(" Already exist"),
            WinError::AlreadyOpen(a) => a.clone().concat(" Already open"),
            WinError::AlreadyHide(a) => a.clone().concat(" Already hide"),
            WinError::NotRegister(a) => a.clone().concat(" Not register"),
            WinError::OpenWindowFail(a, b) => a.clone().concat(" open fail: ").concat(b.as_str()),
            WinError::CloseWindowFail(a, b) => a.clone().concat(" close faill: ").concat(b.as_str()),
            WinError::HideWindowFail(a, b) => a.clone().concat(" hide faill: ").concat(b.as_str()),
        }
    }
}

/// How a window of one type is opened. `position`, `size`, `min_size` and `max_size` hold the
/// bit patterns (`f64::to_bits`) of the two coordinates; the library only hands them on.
#[derive(Debug, Clone, PartialEq)]
pub struct WinOptions {
    pub win_type: String,
    pub overopen: Option<bool>,
    pub url: String,
    pub position: Option<(u64, u64)>,
    pub size: Option<(u64, u64)>,
    pub min_size: Option<(u64, u64)>,
    pub max_size: Option<(u64, u64)>,
    pub resizable: Option<bool>,
    pub title: Option<String>,
    pub fullscreen: Option<bool>,
    pub focus: Option<bool>,
    pub center: Option<bool>,
}

impl WinOptions {
    /// Options of type `label` opened at `url`, with nothing else set.
    pub fn new(label: String, url: String) -> (o: Self)
        ensures
            o.win_type == label,
            o.url == url,
            o.overopen.is_none(),
            o.position.is_none(),
            o.size.is_none(),
            o.min_size.is_none(),
            o.max_size.is_none(),
            o.resizable.is_none(),
            o.title.is_none(),
            o.fullscreen.is_none(),
            o.focus.is_none(),
            o.center.is_none(),
    {
        Self {
            win_type: label,
            url: url,
            overopen: None,
            position: None,
            size: None,
            min_size: None,
            max_size: None,
            resizable: None,
            title: None,
            fullscreen: None,
            focus: None,
            center: None,
        }
    }
}

/// The window type that options are registered under.
pub open spec fn win_type_key() -> spec_fn(WinOptions) -> Seq<char> {
    |o: WinOptions| o.win_type@
}

pub open spec fn whole_options() -> spec_fn(WinOptions) -> WinOptions {
    |o: WinOptions| o
}

/// The registered window types, and the labels of the open and of the hidden windows.
pub struct WinState {
    pub register_win_types: Vec<WinOptions>,
    pub open_wins: Vec<String>,
    pub hide_wins: Vec<String>,
}

impl WinState {
    /// The registered options, by window type.
    pub open spec fn registered(&self) -> Map<Seq<char>, WinOptions> {
        keyed(self.register_win_types@, win_type_key(), whole_options())
    }

    /// The labels of the open windows, in the order they were opened.
    pub open spec fn opened(&self) -> Seq<Seq<char>> {
        names(self.open_wins@)
    }

    /// The labels of the hidden windows, in the order they were hidden.
    pub open spec fn hidden(&self) -> Seq<Seq<char>> {
        names(self.hide_wins@)
    }

    /// Each type is registered once, no label is listed twice, and no window is both open and
    /// hidden.
    pub open spec fn wf(&self) -> bool {
        &&& names_distinct(self.register_win_types@, win_type_key())
        &&& self.opened().no_duplicates()
        &&& self.hidden().no_duplicates()
        &&& forall|l: Seq<char>| #[trigger] self.opened().contains(l) ==> !self.hidden().contains(l)
    }

    pub fn new() -> (s: Self)
        ensures
            s.register_win_types@ == Seq::<WinOptions>::empty(),
            s.open_wins@ == Seq::<String>::empty(),
            s.hide_wins@ == Seq::<String>::empty(),
            s.registered() == Map::<Seq<char>, WinOptions>::empty(),
            s.wf(),
    {
        let s = Self { register_win_types: Vec::new(), open_wins: Vec::new(), hide_wins: Vec::new() };
        assert(s.opened() =~= Seq::<Seq<char>>::empty());
        assert(s.hidden() =~= Seq::<Seq<char>>::empty());
        s
    }

    fn is_open(&self, label: &str) -> (r: bool)
        ensures
            r == self.opened().contains(label@),
    {
        holds_label(&self.open_wins, label)
    }

    fn is_hide(&self, label: &str) -> (r: bool)
        ensures
            r == self.hidden().contains(label@),
    {
        holds_label(&self.hide_wins, label)
    }

    /// The last position holding options of type `win_type`.
    fn position_of(&self, win_type: &str) -> (r: Option<usize>)
        ensures
            match r {
                Some(i) => last_named(self.register_win_types@, win_type_key(), win_type@, i as int),
                None => unnamed(self.register_win_types@, win_type_key(), win_type@),
            },
    {
        let wanted = win_type.to_owned();
        let mut i = self.register_win_types.len();
        while i > 0
            invariant
                i <= self.register_win_types@.len(),
                wanted@ == win_type@,
                forall|j: int|
                    i <= j < self.register_win_types@.len() ==> (win_type_key())(#[trigger] self.register_win_types@[j])
                        != win_type@,
            decreases i,
        {
            i = i - 1;
            if self.register_win_types[i].win_type == wanted {
                return Some(i);
            }
        }
        None
    }

    fn is_register(&self, win_type: &str) -> (r: bool)
        ensures
            r == self.registered().contains_key(win_type@),
    {
        match self.position_of(win_type) {
            Some(i) => {
                proof {
                    lemma_keyed_last(self.register_win_types@, win_type_key(), whole_options(), win_type@, i as int);
                }
                true
            },
            None => {
                proof {
                    lemma_keyed_absent(self.register_win_types@, win_type_key(), whole_options(), win_type@);
                }
                false
            },
        }
    }

    /// The options registered for `win_type`, if any.
    pub fn get_options_by_type(&self, win_type: &str) -> (r: Option<&WinOptions>)
        ensures
            r.is_some() == self.registered().contains_key(win_type@),
            r matches Some(o) ==> *o == self.registered()[win_type@],
    {
        match self.position_of(win_type) {
            Some(i) => {
                proof {
                    lemma_keyed_last(self.register_win_types@, win_type_key(), whole_options(), win_type@, i as int);
                }
                Some(&self.register_win_types[i])
            },
            None => {
                proof {
                    lemma_keyed_absent(self.register_win_types@, win_type_key(), whole_options(), win_type@);
                }
                None
            },
        }
    }

    /// Registers `options` under its window type, unless that type is registered already.
    pub fn register(&mut self, options: WinOptions) -> (r: Result<(), WinError>)
        ensures
            old(self).registered().contains_key(options.win_type@) ==> {
                &&& r matches Err(WinError::AlreadyExist(m)) && m@ == "Win type "@ + options.win_type@
                &&& *final(self) == *old(self)
            },
            !old(self).registered().contains_key(options.win_type@) ==> {
                &&& r is Ok
                &&& final(self).register_win_types@ == old(self).register_win_types@.push(options)
                &&& final(self).registered() == old(self).registered().insert(options.win_type@, options)
                &&& final(self).registered()[options.win_type@] == options
                &&& final(self).open_wins == old(self).open_wins
                &&& final(self).hide_wins == old(self).hide_wins
            },
            old(self).wf() ==> final(self).wf(),
    {
        if self.is_register(options.win_type.as_str()) {
            let mut m = String::from_str("Win type ");
            m.append(options.win_type.as_str());
            return Err(WinError::AlreadyExist(m));
        }
        proof {
            lemma_keyed_push(self.register_win_types@, win_type_key(), whole_options(), options);
            let s = self.register_win_types@;
            if names_distinct(s, win_type_key()) {
                assert forall|i: int, j: int| 0 <= i < j < s.push(options).len() implies (win_type_key())(
                    #[trigger] s.push(options)[i],
                ) != (win_type_key())(#[trigger] s.push(options)[j]) by {
                    if j == s.len() {
                        if (win_type_key())(s[i]) == options.win_type@ {
                            assert(false) by {
                                lemma_registered_prefix(s, i, options.win_type@);
                            }
                        }
                    } else {
                        assert(s.push(options)[i] == s[i] && s.push(options)[j] == s[j]);
                    }
                }
            }
        }
        self.register_win_types.push(options);
        Ok(())
    }

    /// Marks `label` open, and no longer hidden, unless it is open already.
    pub fn open(&mut self, label: &str) -> (r: Result<(), WinError>)
        ensures
            old(self).opened().contains(label@) ==> {
                &&& r matches Err(WinError::AlreadyOpen(m)) && m@ == label@
                &&& *final(self) == *old(self)
            },
            !old(self).opened().contains(label@) ==> {
                &&& r is Ok
                &&& final(self).opened() == old(self).opened().push(label@)
                &&& final(self).hidden() == without(old(self).hidden(), label@)
                &&& final(self).hidden() == old(self).hidden().filter(other_than(label@))
                &&& final(self).register_win_types == old(self).register_win_types
            },
            final(self).opened().contains(label@),
            r is Ok ==> !final(self).hidden().contains(label@),
            old(self).wf() ==> final(self).wf(),
    {
        if self.is_open(label) {
            return Err(WinError::AlreadyOpen(label.to_owned()));
        }
        proof {
            lemma_without(self.hidden(), label@);
            lemma_without_is_filter(self.hidden(), label@);
        }
        if self.is_hide(label) {
            self.hide_wins = without_label(&self.hide_wins, label);
        }
        let ghost before = self.open_wins@;
        self.open_wins.push(label.to_owned());
        proof {
            assert(self.opened() =~= names(before).push(label@));
            lemma_push_fresh(names(before), label@);
        }
        Ok(())
    }

    /// Marks `label` hidden, and no longer open, unless it is hidden already.
    pub fn hide_window(&mut self, label: &str) -> (r: Result<(), WinError>)
        ensures
            old(self).hidden().contains(label@) ==> {
                &&& r matches Err(WinError::AlreadyHide(m)) && m@ == label@
                &&& *final(self) == *old(self)
            },
            !old(self).hidden().contains(label@) ==> {
                &&& r is Ok
                &&& final(self).hidden() == old(self).hidden().push(label@)
                &&& final(self).opened() == without(old(self).opened(), label@)
                &&& final(self).opened() == old(self).opened().filter(other_than(label@))
                &&& final(self).register_win_types == old(self).register_win_types
            },
            final(self).hidden().contains(label@),
            r is Ok ==> !final(self).opened().contains(label@),
            old(self).wf() ==> final(self).wf(),
    {
        if self.is_hide(label) {
            return Err(WinError::AlreadyHide(label.to_owned()));
        }
        proof {
            lemma_without(self.opened(), label@);
            lemma_without_is_filter(self.opened(), label@);
        }
        if self.is_open(label) {
            self.open_wins = without_label(&self.open_wins, label);
        }
        let ghost before = self.hide_wins@;
        self.hide_wins.push(label.to_owned());
        proof {
            assert(self.hidden() =~= names(before).push(label@));
            lemma_push_fresh(names(before), label@);
        }
        Ok(())
    }

    /// Forgets `label`: it is then neither open nor hidden.
    pub fn close(&mut self, label: &str) -> (r: Result<(), WinError>)
        ensures
            r is Ok,
            final(self).hidden() == without(old(self).hidden(), label@),
            final(self).opened() == without(old(self).opened(), label@),
            final(self).hidden() == old(self).hidden().filter(other_than(label@)),
            final(self).opened() == old(self).opened().filter(other_than(label@)),
            final(self).register_win_types == old(self).register_win_types,
            !final(self).opened().contains(label@),
            !final(self).hidden().contains(label@),
            forall|y: Seq<char>| y != label@ ==> (#[trigger] final(self).opened().contains(y) == old(self).opened().contains(y)),
            forall|y: Seq<char>| y != label@ ==> (#[trigger] final(self).hidden().contains(y) == old(self).hidden().contains(y)),
            old(self).wf() ==> final(self).wf(),
    {
        proof {
            lemma_without(self.hidden(), label@);
            lemma_without(self.opened(), label@);
            lemma_without_is_filter(self.hidden(), label@);
            lemma_without_is_filter(self.opened(), label@);
        }
        if self.is_hide(label) {
            self.hide_wins = without_label(&self.hide_wins, label);
        }
        if self.is_open(label) {
            self.open_wins = without_label(&self.open_wins, label);
        }
        Ok(())
    }
}

/// What the `open` command does for a registered window type.
#[derive(Debug, Clone, Copy, PartialEq, Eq)]
pub enum OpenAction {
    /// Open one more window of the type, under a fresh numbered label.
    NewNumbered,
    /// Hand the arguments to the window that is there already.
    Notify,
    /// Create the window under the type's own label.
    Create,
}

impl WinState {
    /// What the `open` command does for `label`, given whether a window with that label exists:
    /// a type registered with `overopen` set gets a new numbered window each time.
    pub fn open_action(&self, label: &str, window_exists: bool) -> (r: Result<OpenAction, WinError>)
        ensures
            !self.registered().contains_key(label@) ==> (r matches Err(WinError::NotRegister(m)) && m@ == label@),
            self.registered().contains_key(label@) ==> r == Ok::<OpenAction, WinError>(
                if self.registered()[label@].overopen == Some(true) {
                    OpenAction::NewNumbered
                } else if window_exists {
                    OpenAction::Notify
                } else {
                    OpenAction::Create
                },
            ),
    {
        match self.get_options_by_type(label) {
            None => Err(WinError::NotRegister(label.to_owned())),
            Some(options) => {
                if options.overopen == Some(true) {
                    Ok(OpenAction::NewNumbered)
                } else if window_exists {
                    Ok(OpenAction::Notify)
                } else {
                    Ok(OpenAction::Create)
                }
            },
        }
    }

    /// Whether the `hide` command may go on, for `label` asked from the window `current`: it
    /// refuses when `current` is hidden already, naming `label`, or `current` when `label` is empty.
    pub fn hide_precheck(&self, label: &str, current: &str) -> (r: Result<(), WinError>)
        ensures
            self.hidden().contains(current@) ==> (r matches Err(WinError::HideWindowFail(t, why))
                && t@ == (if label@.len() == 0 { current@ } else { label@ })
                && why@ == "already hide"@),
            !self.hidden().contains(current@) ==> r is Ok,
    {
        if self.is_hide(current) {
            return Err(WinError::HideWindowFail(command_target(label, current), String::from_str("already hide")));
        }
        Ok(())
    }
}

/// The label a command acts on: `label`, or the calling window `current` when `label` is empty.
pub fn command_target(label: &str, current: &str) -> (r: String)
    ensures
        r@ == if label@.len() == 0 { current@ } else { label@ },
{
    if label.is_empty() {
        current.to_owned()
    } else {
        label.to_owned()
    }
}

/// The label of the `n`-th extra window of type `label`: the label, `_` and `n` in decimal.
pub fn numbered_label(label: &str, n: usize) -> (r: String)
    ensures
        r@ == label@ + "_"@ + decimal(n as nat),
{
    let mut r = String::from_str(label);
    r.append("_");
    push_decimal(&mut r, n);
    r
}

/// The text of the script a new window runs first, with the arguments it was opened with
/// (`args_json`, already JSON) in it.
pub open spec fn init_script_text(args_json: Seq<char>) -> Seq<char> {
    "\n                if (window.location.origin === 'http://localhost:1420' || window.location.origin === '') {\n                    console.log(\"init\");\n\n                    window.__MY_CUSTOM_PROPERTY__ = '"@
        + args_json + "';\n                }\n            "@
}

/// The script a new window runs first.
pub fn init_script(args_json: &str) -> (r: String)
    ensures
        r@ == init_script_text(args_json@),
{
    let mut r = String::from_str(
        "\n                if (window.location.origin === 'http://localhost:1420' || window.location.origin === '') {\n                    console.log(\"init\");\n\n                    window.__MY_CUSTOM_PROPERTY__ = '",
    );
    r.append(args_json);
    r.append("';\n                }\n            ");
    r
}

/// One setting applied to a window as it is built. Sizes and positions are bit patterns of `f64`.
#[derive(Debug, Clone, PartialEq)]
pub enum WindowStep {
    Position(u64, u64),
    InnerSize(u64, u64),
    MaxInnerSize(u64, u64),
    Title(String),
    Focused(bool),
    Fullscreen(bool),
    Resizable(bool),
    Center,
}

pub open spec fn position_step(p: Option<(u64, u64)>) -> Seq<WindowStep> {
    match p {
        Some(xy) => seq![WindowStep::Position(xy.0, xy.1)],
        None => Seq::empty(),
    }
}

pub open spec fn size_step(p: Option<(u64, u64)>) -> Seq<WindowStep> {
    match p {
        Some(xy) => seq![WindowStep::InnerSize(xy.0, xy.1)],
        None => Seq::empty(),
    }
}

pub open spec fn max_size_step(p: Option<(u64, u64)>) -> Seq<WindowStep> {
    match p {
        Some(xy) => seq![WindowStep::MaxInnerSize(xy.0, xy.1)],
        None => Seq::empty(),
    }
}

pub open spec fn title_step(t: Option<String>) -> Seq<WindowStep> {
    match t {
        Some(t) => seq![WindowStep::Title(t)],
        None => Seq::empty(),
    }
}

pub open spec fn focus_step(b: Option<bool>) -> Seq<WindowStep> {
    match b {
        Some(v) => seq![WindowStep::Focused(v)],
        None => Seq::empty(),
    }
}

pub open spec fn fullscreen_step(b: Option<bool>) -> Seq<WindowStep> {
    match b {
        Some(v) => seq![WindowStep::Fullscreen(v)],
        None => Seq::empty(),
    }
}

pub open spec fn resizable_step(b: Option<bool>) -> Seq<WindowStep> {
    match b {
        Some(v) => seq![WindowStep::Resizable(v)],
        None => Seq::empty(),
    }
}

pub open spec fn center_step(b: Option<bool>) -> Seq<WindowStep> {
    if b == Some(true) {
        seq![WindowStep::Center]
    } else {
        Seq::empty()
    }
}

/// The settings a window of these options is built with, in order: position, size, the
/// maximum size twice (the minimum size is not applied), title, focus, fullscreen,
/// resizable, and centring when `center` is `Some(true)`.
pub open spec fn window_steps_of(o: WinOptions) -> Seq<WindowStep> {
    position_step(o.position) + size_step(o.size) + max_size_step(o.max_size) + max_size_step(o.max_size)
        + title_step(o.title) + focus_step(o.focus) + fullscreen_step(o.fullscreen)
        + resizable_step(o.resizable) + center_step(o.center)
}

proof fn lemma_contains_concat(a: Seq<WindowStep>, b: Seq<WindowStep>)
    ensures
        forall|x: WindowStep| #[trigger] (a + b).contains(x) <==> (a.contains(x) || b.contains(x)),
{
    assert forall|x: WindowStep| #[trigger] (a + b).contains(x) <==> (a.contains(x) || b.contains(x)) by {
        if a.contains(x) {
            let i = choose|i: int| 0 <= i < a.len() && a[i] == x;
            assert((a + b)[i] == x);
        }
        if b.contains(x) {
            let i = choose|i: int| 0 <= i < b.len() && b[i] == x;
            assert((a + b)[a.len() + i] == x);
        }
        if (a + b).contains(x) {
            let i = choose|i: int| 0 <= i < (a + b).len() && (a + b)[i] == x;
            if i < a.len() {
                assert(a[i] == x);
            } else {
                assert(b[i - a.len()] == x);
            }
        }
    }
}

proof fn lemma_contains_one(v: WindowStep)
    ensures
        forall|x: WindowStep| #[trigger] seq![v].contains(x) <==> x == v,
        forall|x: WindowStep| !#[trigger] Seq::<WindowStep>::empty().contains(x),
{
    assert forall|x: WindowStep| #[trigger] seq![v].contains(x) <==> x == v by {
        if x == v {
            assert(seq![v][0] == x);
        }
    }
}

/// How many settings an optional value gives.
pub open spec fn count_if(b: bool) -> nat {
    if b { 1 } else { 0 }
}

/// What a window is built with, read off its options: each option that is given appears as
/// exactly the setting with its value (the maximum size twice), centring appears exactly when
/// `center` is `Some(true)`, and nothing else appears.
pub proof fn lemma_window_steps_settings(o: WinOptions)
    ensures
        forall|x: u64, y: u64| #[trigger] window_steps_of(o).contains(WindowStep::Position(x, y))
            <==> o.position == Some((x, y)),
        forall|x: u64, y: u64| #[trigger] window_steps_of(o).contains(WindowStep::InnerSize(x, y))
            <==> o.size == Some((x, y)),
        forall|x: u64, y: u64| #[trigger] window_steps_of(o).contains(WindowStep::MaxInnerSize(x, y))
            <==> o.max_size == Some((x, y)),
        forall|t: String| #[trigger] window_steps_of(o).contains(WindowStep::Title(t)) <==> o.title == Some(t),
        forall|b: bool| #[trigger] window_steps_of(o).contains(WindowStep::Focused(b)) <==> o.focus == Some(b),
        forall|b: bool| #[trigger] window_steps_of(o).contains(WindowStep::Fullscreen(b)) <==> o.fullscreen == Some(b),
        forall|b: bool| #[trigger] window_steps_of(o).contains(WindowStep::Resizable(b)) <==> o.resizable == Some(b),
        window_steps_of(o).contains(WindowStep::Center) <==> o.center == Some(true),
        o.position matches Some(xy) ==> window_steps_of(o)[0] == WindowStep::Position(xy.0, xy.1),
        o.center == Some(true) ==> window_steps_of(o).last() == WindowStep::Center,
        window_steps_of(o).len() == count_if(o.position is Some) + count_if(o.size is Some) + 2 * count_if(
            o.max_size is Some,
        ) + count_if(o.title is Some) + count_if(o.focus is Some) + count_if(o.fullscreen is Some) + count_if(
            o.resizable is Some,
        ) + count_if(o.center == Some(true)),
{
    lemma_steps_len(o);
    lemma_steps_contains(o);
    lemma_parts_contain(o);
    lemma_steps_ends(o);
}

proof fn lemma_steps_ends(o: WinOptions)
    ensures
        o.position matches Some(xy) ==> window_steps_of(o)[0] == WindowStep::Position(xy.0, xy.1),
        o.center == Some(true) ==> window_steps_of(o).last() == WindowStep::Center,
{
    let p = position_step(o.position);
    let s1 = p + size_step(o.size);
    let s2 = s1 + max_size_step(o.max_size);
    let s3 = s2 + max_size_step(o.max_size);
    let s4 = s3 + title_step(o.title);
    let s5 = s4 + focus_step(o.focus);
    let s6 = s5 + fullscreen_step(o.fullscreen);
    let s7 = s6 + resizable_step(o.resizable);
    let c = center_step(o.center);
    assert(window_steps_of(o) == s7 + c);
    if p.len() > 0 {
        assert(s1[0] == p[0]);
        assert(s2[0] == s1[0]);
        assert(s3[0] == s2[0]);
        assert(s4[0] == s3[0]);
        assert(s5[0] == s4[0]);
        assert(s6[0] == s5[0]);
        assert(s7[0] == s6[0]);
        assert((s7 + c)[0] == s7[0]);
    }
    if c.len() > 0 {
        assert((s7 + c)[s7.len() + c.len() - 1] == c[c.len() - 1]);
    }
}

proof fn lemma_steps_len(o: WinOptions)
    ensures
        window_steps_of(o).len() == count_if(o.position is Some) + count_if(o.size is Some) + 2 * count_if(
            o.max_size is Some,
        ) + count_if(o.title is Some) + count_if(o.focus is Some) + count_if(o.fullscreen is Some) + count_if(
            o.resizable is Some,
        ) + count_if(o.center == Some(true)),
{
}

/// A step is in the settings exactly when it is in one of the parts they are made of.
proof fn lemma_steps_contains(o: WinOptions)
    ensures
        forall|x: WindowStep| #[trigger] window_steps_of(o).contains(x) <==> (
            position_step(o.position).contains(x) || size_step(o.size).contains(x)
            || max_size_step(o.max_size).contains(x) || title_step(o.title).contains(x)
            || focus_step(o.focus).contains(x) || fullscreen_step(o.fullscreen).contains(x)
            || resizable_step(o.resizable).contains(x) || center_step(o.center).contains(x)),
{
    let p = position_step(o.position);
    let sz = size_step(o.size);
    let m = max_size_step(o.max_size);
    let s1 = p + sz;
    let s2 = s1 + m;
    let s3 = s2 + m;
    let s4 = s3 + title_step(o.title);
    let s5 = s4 + focus_step(o.focus);
    let s6 = s5 + fullscreen_step(o.fullscreen);
    let s7 = s6 + resizable_step(o.resizable);
    lemma_contains_concat(p, sz);
    lemma_contains_concat(s1, m);
    lemma_contains_concat(s2, m);
    lemma_contains_concat(s3, title_step(o.title));
    lemma_contains_concat(s4, focus_step(o.focus));
    lemma_contains_concat(s5, fullscreen_step(o.fullscreen));
    lemma_contains_concat(s6, resizable_step(o.resizable));
    lemma_contains_concat(s7, center_step(o.center));
}

/// Which steps each part holds.
proof fn lemma_parts_contain(o: WinOptions)
    ensures
        forall|x: WindowStep| #[trigger] position_step(o.position).contains(x) <==> (o.position matches Some(xy) && x
            == WindowStep::Position(xy.0, xy.1)),
        forall|x: WindowStep| #[trigger] size_step(o.size).contains(x) <==> (o.size matches Some(xy) && x
            == WindowStep::InnerSize(xy.0, xy.1)),
        forall|x: WindowStep| #[trigger] max_size_step(o.max_size).contains(x) <==> (o.max_size matches Some(xy) && x
            == WindowStep::MaxInnerSize(xy.0, xy.1)),
        forall|x: WindowStep| #[trigger] title_step(o.title).contains(x) <==> (o.title is Some && x
            == WindowStep::Title(o.title->0)),
        forall|x: WindowStep| #[trigger] focus_step(o.focus).contains(x) <==> (o.focus is Some && x
            == WindowStep::Focused(o.focus->0)),
        forall|x: WindowStep| #[trigger] fullscreen_step(o.fullscreen).contains(x) <==> (o.fullscreen is Some && x
            == WindowStep::Fullscreen(o.fullscreen->0)),
        forall|x: WindowStep| #[trigger] resizable_step(o.resizable).contains(x) <==> (o.resizable is Some && x
            == WindowStep::Resizable(o.resizable->0)),
        forall|x: WindowStep| #[trigger] center_step(o.center).contains(x) <==> (o.center == Some(true) && x
            == WindowStep::Center),
{
    lemma_contains_one(WindowStep::Center);
    if let Some(xy) = o.position {
        lemma_contains_one(WindowStep::Position(xy.0, xy.1));
    }
    if let Some(xy) = o.size {
        lemma_contains_one(WindowStep::InnerSize(xy.0, xy.1));
    }
    if let Some(xy) = o.max_size {
        lemma_contains_one(WindowStep::MaxInnerSize(xy.0, xy.1));
    }
    if let Some(v) = o.title {
        lemma_contains_one(WindowStep::Title(v));
    }
    if let Some(v) = o.focus {
        lemma_contains_one(WindowStep::Focused(v));
    }
    if let Some(v) = o.fullscreen {
        lemma_contains_one(WindowStep::Fullscreen(v));
    }
    if let Some(v) = o.resizable {
        lemma_contains_one(WindowStep::Resizable(v));
    }
}

/// The setting for a pair of coordinates, if given: `kind` 0 is the position, 1 the size, 2 the
/// maximum size.
fn pair_steps(p: Option<(u64, u64)>, kind: u8) -> (v: Vec<WindowStep>)
    requires
        kind < 3,
    ensures
        v@ == if kind == 0 { position_step(p) } else if kind == 1 { size_step(p) } else { max_size_step(p) },
{
    let mut v: Vec<WindowStep> = Vec::new();
    if let Some(xy) = p {
        if kind == 0 {
            v.push(WindowStep::Position(xy.0, xy.1));
        } else if kind == 1 {
            v.push(WindowStep::InnerSize(xy.0, xy.1));
        } else {
            v.push(WindowStep::MaxInnerSize(xy.0, xy.1));
        }
    }
    assert(v@ =~= if kind == 0 { position_step(p) } else if kind == 1 { size_step(p) } else { max_size_step(p) });
    v
}

/// The setting for a flag, if given: `kind` 0 is focus, 1 fullscreen, 2 resizable, 3 centring
/// (applied only when the flag is set).
fn flag_steps(b: Option<bool>, kind: u8) -> (v: Vec<WindowStep>)
    requires
        kind < 4,
    ensures
        v@ == if kind == 0 {
            focus_step(b)
        } else if kind == 1 {
            fullscreen_step(b)
        } else if kind == 2 {
            resizable_step(b)
        } else {
            center_step(b)
        },
{
    let mut v: Vec<WindowStep> = Vec::new();
    if let Some(x) = b {
        if kind == 0 {
            v.push(WindowStep::Focused(x));
        } else if kind == 1 {
            v.push(WindowStep::Fullscreen(x));
        } else if kind == 2 {
            v.push(WindowStep::Resizable(x));
        } else if x {
            v.push(WindowStep::Center);
        }
    }
    assert(v@ =~= if kind == 0 {
        focus_step(b)
    } else if kind == 1 {
        fullscreen_step(b)
    } else if kind == 2 {
        resizable_step(b)
    } else {
        center_step(b)
    });
    v
}

/// The title setting, if given.
fn title_steps(t: &Option<String>) -> (v: Vec<WindowStep>)
    ensures
        v@ == title_step(*t),
{
    let mut v: Vec<WindowStep> = Vec::new();
    if let Some(x) = t {
        v.push(WindowStep::Title(x.clone()));
    }
    assert(v@ =~= title_step(*t));
    v
}

/// The settings a window of `options` is built with.
pub fn window_steps(options: &WinOptions) -> (r: Vec<WindowStep>)
    ensures
        r@ == window_steps_of(*options),
        forall|x: u64, y: u64| #[trigger] r@.contains(WindowStep::Position(x, y)) <==> options.position == Some((x, y)),
        forall|x: u64, y: u64| #[trigger] r@.contains(WindowStep::InnerSize(x, y)) <==> options.size == Some((x, y)),
        forall|x: u64, y: u64| #[trigger] r@.contains(WindowStep::MaxInnerSize(x, y)) <==> options.max_size == Some((x, y)),
        forall|t: String| #[trigger] r@.contains(WindowStep::Title(t)) <==> options.title == Some(t),
        forall|b: bool| #[trigger] r@.contains(WindowStep::Focused(b)) <==> options.focus == Some(b),
        forall|b: bool| #[trigger] r@.contains(WindowStep::Fullscreen(b)) <==> options.fullscreen == Some(b),
        forall|b: bool| #[trigger] r@.contains(WindowStep::Resizable(b)) <==> options.resizable == Some(b),
        r@.contains(WindowStep::Center) <==> options.center == Some(true),
        options.position matches Some(xy) ==> r@[0] == WindowStep::Position(xy.0, xy.1),
        options.center == Some(true) ==> r@.last() == WindowStep::Center,
        r@.len() == count_if(options.position is Some) + count_if(options.size is Some) + 2 * count_if(
            options.max_size is Some,
        ) + count_if(options.title is Some) + count_if(options.focus is Some) + count_if(options.fullscreen is Some)
            + count_if(options.resizable is Some) + count_if(options.center == Some(true)),
{
    proof {
        lemma_window_steps_settings(*options);
    }
    let mut r = pair_steps(options.position, 0);
    let mut more = pair_steps(options.size, 1);
    r.append(&mut more);
    let mut more = pair_steps(options.max_size, 2);
    r.append(&mut more);
    let mut more = pair_steps(options.max_size, 2);
    r.append(&mut more);
    let mut more = title_steps(&options.title);
    r.append(&mut more);
    let mut more = flag_steps(options.focus, 0);
    r.append(&mut more);
    let mut more = flag_steps(options.fullscreen, 1);
    r.append(&mut more);
    let mut more = flag_steps(options.resizable, 2);
    r.append(&mut more);
    let mut more = flag_steps(options.center, 3);
    r.append(&mut more);
    r
}

/// Opening a window that is neither open nor hidden, then closing it, leaves both lists as
/// they were.
pub proof fn lemma_open_then_close(opened: Seq<Seq<char>>, hidden: Seq<Seq<char>>, label: Seq<char>)
    requires
        !opened.contains(label),
        !hidden.contains(label),
    ensures
        without(opened.push(label), label) == opened,
        without(without(hidden, label), label) == hidden,
{
    lemma_without_undoes_push(opened, label);
    lemma_without(hidden, label);
}

/// Hiding a window that is neither open nor hidden, then closing it, leaves both lists as
/// they were.
pub proof fn lemma_hide_then_close(opened: Seq<Seq<char>>, hidden: Seq<Seq<char>>, label: Seq<char>)
    requires
        !opened.contains(label),
        !hidden.contains(label),
    ensures
        without(hidden.push(label), label) == hidden,
        without(without(opened, label), label) == opened,
{
    lemma_without_undoes_push(hidden, label);
    lemma_without(opened, label);
}

/// Closing a window twice does what closing it once does.
pub proof fn lemma_close_twice(opened: Seq<Seq<char>>, hidden: Seq<Seq<char>>, label: Seq<char>)
    ensures
        without(without(opened, label), label) == without(opened, label),
        without(without(hidden, label), label) == without(hidden, label),
{
    lemma_without_twice(opened, label);
    lemma_without_twice(hidden, label);
}

/// A prefix of the entries that ends in an entry named `k` leaves `k` registered in the whole.
pub(crate) proof fn lemma_registered_prefix(s: Seq<WinOptions>, i: int, k: Seq<char>)
    requires
        0 <= i < s.len(),
        (win_type_key())(s[i]) == k,
    ensures
        keyed(s, win_type_key(), whole_options()).contains_key(k),
    decreases s.len(),
{
    if i < s.len() - 1 {
        lemma_registered_prefix(s.drop_last(), i, k);
    }
}

/// Pushing a label that is not listed keeps the list free of repeats.
proof fn lemma_push_fresh(s: Seq<Seq<char>>, x: Seq<char>)
    requires
        !s.contains(x),
    ensures
        s.no_duplicates() ==> s.push(x).no_duplicates(),
        forall|y: Seq<char>| #[trigger] s.push(x).contains(y) <==> (s.contains(y) || y == x),
{
    let w = s.push(x);
    assert forall|y: Seq<char>| #[trigger] w.contains(y) <==> (s.contains(y) || y == x) by {
        if s.contains(y) {
            let i = choose|i: int| 0 <= i < s.len() && s[i] == y;
            assert(w[i] == y);
        }
        if y == x {
            assert(w[s.len() as int] == y);
        }
        if w.contains(y) {
            let i = choose|i: int| 0 <= i < w.len() && w[i] == y;
            if i < s.len() {
                assert(s[i] == y);
            }
        }
    }
    if s.no_duplicates() {
        assert forall|i: int, j: int| 0 <= i < w.len() && 0 <= j < w.len() && i != j implies w[i] != w[j] by {
            if i == s.len() {
                assert(s.contains(w[j]));
            } else if j == s.len() {
                assert(s.contains(w[i]));
            }
        }
    }
}

} // verus!
