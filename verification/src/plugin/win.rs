//! What the window plugin decides: the page configurations it registers when it starts, and the
//! input events it keeps from the application.
use vstd::prelude::*;

use crate::keyed::{keyed, unnamed, lemma_keyed_absent};
use crate::win::{lemma_registered_prefix, whole_options, win_type_key};

pub use crate::win::{
    command_target, init_script, numbered_label, window_steps, OpenAction, WinError, WinOptions, WinState, WindowStep,
};

verus! {

/// The pages before position `n` each register a type that was not registered before them,
/// in `reg` or earlier among the pages.
pub open spec fn registers_cleanly(reg: Seq<WinOptions>, pages: Seq<WinOptions>, n: int) -> bool {
    forall|i: int| 0 <= i < n ==> unnamed(reg + pages.take(i), win_type_key(), #[trigger] pages[i].win_type@)
}

/// Registers the configured pages in order, and stops at the first whose type is registered
/// already, with the error that registering it gave.
pub fn register_page_configs(state: &mut WinState, pages: Vec<WinOptions>) -> (r: Result<(), WinError>)
    ensures
        (r is Ok) == registers_cleanly(old(state).register_win_types@, pages@, pages@.len() as int),
        r is Ok ==> final(state).register_win_types@ == old(state).register_win_types@ + pages@,
        r is Err ==> exists|k: int|
            0 <= k < pages@.len() && registers_cleanly(old(state).register_win_types@, pages@, k)
                && !unnamed(old(state).register_win_types@ + pages@.take(k), win_type_key(), #[trigger] pages@[k].win_type@)
                && final(state).register_win_types@ == old(state).register_win_types@ + pages@.take(k)
                && (r matches Err(WinError::AlreadyExist(m)) && m@ == "Win type "@ + pages@[k].win_type@),
        final(state).open_wins == old(state).open_wins,
        final(state).hide_wins == old(state).hide_wins,
        old(state).wf() ==> final(state).wf(),
{
    let ghost reg0 = state.register_win_types@;
    let ghost all = pages@;
    assert(all.len() == pages.len());
    let mut rest = pages;
    let mut k: usize = 0;
    while rest.len() > 0
        invariant
            k + rest@.len() == all.len(),
            all.len() <= usize::MAX,
            reg0 == old(state).register_win_types@,
            all == pages@,
            rest@ == all.skip(k as int),
            state.register_win_types@ == reg0 + all.take(k as int),
            registers_cleanly(reg0, all, k as int),
            state.open_wins == old(state).open_wins,
            state.hide_wins == old(state).hide_wins,
            old(state).wf() ==> state.wf(),
        decreases rest@.len(),
    {
        let page = rest.remove(0);
        assert(page == all[k as int]);
        let ghost before = state.register_win_types@;
        match state.register(page) {
            Ok(()) => {
                proof {
                    if !unnamed(before, win_type_key(), page.win_type@) {
                        let j = choose|j: int| 0 <= j < before.len() && (win_type_key())(before[j]) == page.win_type@;
                        lemma_registered_prefix(before, j, page.win_type@);
                    }
                    lemma_clean_step(reg0, all, k as int, before, page);
                }
                k = k + 1;
                assert(rest@ =~= all.skip(k as int));
            },
            Err(e) => {
                proof {
                    if unnamed(before, win_type_key(), page.win_type@) {
                        lemma_keyed_absent(before, win_type_key(), whole_options(), page.win_type@);
                    }
                    assert(!unnamed(reg0 + all.take(k as int), win_type_key(), all[k as int].win_type@));
                    assert(state.register_win_types@ == reg0 + all.take(k as int));
                }
                return Err(e);
            },
        }
    }
    assert(all.take(k as int) =~= all);
    Ok(())
}

proof fn lemma_clean_step(reg0: Seq<WinOptions>, all: Seq<WinOptions>, k: int, before: Seq<WinOptions>, page: WinOptions)
    requires
        0 <= k < all.len(),
        before == reg0 + all.take(k),
        page == all[k],
        registers_cleanly(reg0, all, k),
        unnamed(before, win_type_key(), page.win_type@),
    ensures
        registers_cleanly(reg0, all, k + 1),
        reg0 + all.take(k + 1) == before.push(page),
{
    assert(all.take(k + 1) =~= all.take(k).push(page));
    assert(reg0 + all.take(k + 1) =~= before.push(page));
}

/// A key on the keyboard, as far as the plugin tells keys apart.
#[derive(Debug, Clone, Copy, PartialEq, Eq)]
pub enum InputKey {
    Alt,
    KeyU,
    Other,
}

/// An input event the plugin sees before the application does.
#[derive(Debug, Clone, Copy, PartialEq, Eq)]
pub enum InputEvent {
    KeyPress(InputKey),
    MouseMove,
    Other,
}

/// Whether the plugin keeps `event` from the application: a press of Alt or of U.
pub fn blocks_input(event: InputEvent) -> (r: bool)
    ensures
        r == (event == InputEvent::KeyPress(InputKey::Alt) || event == InputEvent::KeyPress(InputKey::KeyU)),
{
    match event {
        InputEvent::KeyPress(key) => match key {
            InputKey::Alt => true,
            InputKey::KeyU => true,
            InputKey::Other => false,
        },
        InputEvent::MouseMove => false,
        InputEvent::Other => false,
    }
}

} // verus!
