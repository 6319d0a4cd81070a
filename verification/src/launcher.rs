//! The mode controller: owns which list controller is active, routes
//! navigation and confirmation to it, and manages the transitions
//! between the main view, the emoji grid and the clipboard history.
//! Every outside effect of a confirmed item is returned as a value for
//! the host to perform.

use vstd::prelude::*;
use vstd::string::*;

use crate::clipboard::{
    clip_move_post, item_previews, join_lines, ClipboardContent, ClipboardItem,
    ClipboardListDelegate,
};
use crate::filter::{item_names, item_prs, ranked_ok, zero_prs};
use crate::grid::{clamp_cursor, entry_names, move_post, EmojiEntry, EmojiGridDelegate};
use crate::items::{ApplicationItem, ListItem};
use crate::list::{FilterJob, ItemListDelegate};
use crate::strutil::str_eq;

verus! {

/// Number of columns of the emoji grid.
pub const EMOJI_GRID_WIDTH: usize = 8;

/// The current view mode of the launcher.
#[derive(Clone, Copy, Debug, PartialEq, Eq, Structural)]
pub enum ViewMode {
    /// Main launcher view showing apps, windows, commands.
    Main,
    /// Emoji picker grid view.
    EmojiPicker,
    /// Clipboard history view.
    ClipboardHistory,
}

impl Default for ViewMode {
    fn default() -> (r: Self)
        ensures
            r == ViewMode::Main,
    {
        ViewMode::Main
    }
}

/// What the host has to do after a confirm action. Every variant that
/// carries a payload also dismisses the launcher; the payload names the
/// one outside effect to perform first.
pub enum ConfirmEffect {
    /// No selection: nothing happens.
    Nothing,
    /// The launcher switched to the emoji grid; the host loads the
    /// emoji dataset and hands it to `set_emoji_items`.
    EnteredEmojiPicker,
    /// The launcher switched to the clipboard history; the host loads
    /// the history and hands it to `set_clipboard_items`.
    EnteredClipboardHistory,
    /// Dismiss, then launch this application.
    LaunchApp(ApplicationItem),
    /// Dismiss, then focus the window at this compositor address.
    FocusWindow(String),
    /// Dismiss, then place this text on the clipboard.
    CopyText(String),
    /// Dismiss, then decode these image bytes and place the image on
    /// the clipboard.
    CopyImage(Vec<u8>),
    /// Dismiss, then execute this action command.
    RunCommand(String),
    /// Dismiss, then open this URL in the default handler.
    OpenUrl(String),
    /// Dismiss with no further effect (a submenu the controller does
    /// not recognize).
    Dismiss,
}

impl ConfirmEffect {
    /// Whether the host dismisses the launcher after this effect:
    /// everything but "no selection" and a mode transition does.
    pub open spec fn spec_dismisses(&self) -> bool {
        match self {
            ConfirmEffect::Nothing => false,
            ConfirmEffect::EnteredEmojiPicker => false,
            ConfirmEffect::EnteredClipboardHistory => false,
            _ => true,
        }
    }

    /// Does the host dismiss the launcher after this effect?
    pub fn dismisses(&self) -> (r: bool)
        ensures
            r == self.spec_dismisses(),
    {
        match self {
            ConfirmEffect::Nothing => false,
            ConfirmEffect::EnteredEmojiPicker => false,
            ConfirmEffect::EnteredClipboardHistory => false,
            _ => true,
        }
    }
}

/// The outside effect of confirming a non-submenu item, by its kind.
pub open spec fn item_effect(item: ListItem) -> ConfirmEffect {
    match item {
        ListItem::Application(a) => ConfirmEffect::LaunchApp(a),
        ListItem::Window(w) => ConfirmEffect::FocusWindow(w.address),
        ListItem::Calculator(c) => ConfirmEffect::CopyText(c.display_result),
        ListItem::Action(a) => ConfirmEffect::RunCommand(a.command),
        ListItem::Search(s) => ConfirmEffect::OpenUrl(s.url),
        ListItem::Submenu(_) => ConfirmEffect::Dismiss,
    }
}

/// The effect of confirming a clipboard entry: its content goes back to
/// the clipboard — text as text, paths joined by newlines, rich text as
/// its plain form, image data as an image.
pub open spec fn clip_effect_matches(it: ClipboardItem, r: ConfirmEffect) -> bool {
    match it.content {
        ClipboardContent::Text(t) => r matches ConfirmEffect::CopyText(s) && s@ == t@,
        ClipboardContent::RichText { plain } => r matches ConfirmEffect::CopyText(s) && s@
            == plain@,
        ClipboardContent::FilePaths(ps) => r matches ConfirmEffect::CopyText(s) && s@
            == join_lines(ps.deep_view()),
        ClipboardContent::Image(b) => r matches ConfirmEffect::CopyImage(bb) && bb@ == b@,
    }
}

/// The main list after its query was cleared: the backing items are
/// `items`, the query is empty, the filtered view is the ranked full
/// collection — every item, grouped by priority, nothing stale left
/// behind — and the cursor is back on the first position.
pub open spec fn main_list_reset(items: Seq<ListItem>, post: ItemListDelegate) -> bool {
    &&& post.items@ == items
    &&& post.query@ == Seq::<char>::empty()
    &&& ranked_ok(item_names(items), item_prs(items), Seq::<char>::empty(), post.filtered@)
    &&& post.selected == (if post.filtered@.len() > 0 {
        Some(0usize)
    } else {
        None::<usize>
    })
}

/// The launcher's view-model: the current mode, the always-present main
/// list controller, and the grid and clipboard controllers that exist
/// only while their mode is active.
pub struct LauncherView {
    /// Current view mode.
    pub view_mode: ViewMode,
    /// Main list state.
    pub list_state: ItemListDelegate,
    /// Emoji grid state (created on demand).
    pub emoji_list_state: Option<EmojiGridDelegate>,
    /// Clipboard history list state (created on demand).
    pub clipboard_list_state: Option<ClipboardListDelegate>,
}

impl LauncherView {
    /// Well-formedness: the main controller is well formed, a sub-mode
    /// controller exists exactly while its mode is active, and an
    /// existing controller is well formed.
    pub open spec fn wf(&self) -> bool {
        &&& self.list_state.wf()
        &&& (self.view_mode == ViewMode::EmojiPicker <==> self.emoji_list_state is Some)
        &&& (self.view_mode == ViewMode::ClipboardHistory <==> self.clipboard_list_state
            is Some)
        &&& match self.emoji_list_state {
            Some(g) => g.wf(),
            None => true,
        }
        &&& match self.clipboard_list_state {
            Some(c) => c.wf(),
            None => true,
        }
    }

    /// Construct a launcher over the main backing items, in the main
    /// mode, with an empty query and the full grouped view.
    pub fn new(items: Vec<ListItem>) -> (r: Self)
        ensures
            r.wf(),
            r.view_mode == ViewMode::Main,
            r.emoji_list_state is None,
            r.clipboard_list_state is None,
            main_list_reset(items@, r.list_state),
            r.list_state.generation == 0,
    {
        LauncherView {
            view_mode: ViewMode::Main,
            list_state: ItemListDelegate::new(items),
            emoji_list_state: None,
            clipboard_list_state: None,
        }
    }

    /// The placeholder text of the search input for the current mode.
    pub fn placeholder(&self) -> (r: &'static str)
        ensures
            self.view_mode == ViewMode::Main ==> r@ == "Search applications..."@,
            self.view_mode == ViewMode::EmojiPicker ==> r@ == "Search emojis..."@,
            self.view_mode == ViewMode::ClipboardHistory ==> r@
                == "Search clipboard history..."@,
    {
        match self.view_mode {
            ViewMode::Main => "Search applications...",
            ViewMode::EmojiPicker => "Search emojis...",
            ViewMode::ClipboardHistory => "Search clipboard history...",
        }
    }

    /// The query of the controller the current mode routes to.
    pub fn active_query(&self) -> (r: &str)
        requires
            self.wf(),
        ensures
            self.view_mode == ViewMode::Main ==> r@ == self.list_state.query@,
            self.view_mode == ViewMode::EmojiPicker ==> r@ == self.emoji_list_state->0.query@,
            self.view_mode == ViewMode::ClipboardHistory ==> r@
                == self.clipboard_list_state->0.query@,
    {
        match self.view_mode {
            ViewMode::Main => self.list_state.query(),
            ViewMode::EmojiPicker => match &self.emoji_list_state {
                Some(g) => g.query(),
                None => "",
            },
            ViewMode::ClipboardHistory => match &self.clipboard_list_state {
                Some(c) => c.query(),
                None => "",
            },
        }
    }

    /// Enter the emoji picker: a fresh grid controller with an empty
    /// query; the host loads the emoji dataset and clears the input.
    pub fn enter_emoji_mode(&mut self)
        requires
            old(self).wf(),
        ensures
            final(self).wf(),
            final(self).view_mode == ViewMode::EmojiPicker,
            final(self).list_state == old(self).list_state,
            final(self).clipboard_list_state is None,
            final(self).emoji_list_state matches Some(g) && g.entries@.len() == 0 && g.query@
                == Seq::<char>::empty() && g.filtered@.len() == 0 && g.selected is None
                && g.width == EMOJI_GRID_WIDTH,
    {
        self.emoji_list_state = Some(EmojiGridDelegate::new(EMOJI_GRID_WIDTH));
        self.clipboard_list_state = None;
        self.view_mode = ViewMode::EmojiPicker;
    }

    /// Exit the emoji picker back to the main view: the grid controller
    /// is destroyed and the main list's query and view are reset to the
    /// full grouped collection.
    pub fn exit_emoji_mode(&mut self)
        requires
            old(self).wf(),
        ensures
            final(self).wf(),
            final(self).view_mode == ViewMode::Main,
            final(self).emoji_list_state is None,
            final(self).clipboard_list_state is None,
            main_list_reset(old(self).list_state.items@, final(self).list_state),
    {
        self.view_mode = ViewMode::Main;
        self.emoji_list_state = None;
        self.clipboard_list_state = None;
        self.list_state.clear_query();
    }

    /// Enter the clipboard history: a fresh list controller with an
    /// empty query; the host loads the history and clears the input.
    pub fn enter_clipboard_mode(&mut self)
        requires
            old(self).wf(),
        ensures
            final(self).wf(),
            final(self).view_mode == ViewMode::ClipboardHistory,
            final(self).list_state == old(self).list_state,
            final(self).emoji_list_state is None,
            final(self).clipboard_list_state matches Some(c) && c.items@.len() == 0 && c.query@
                == Seq::<char>::empty() && c.filtered@.len() == 0 && c.selected is None,
    {
        self.clipboard_list_state = Some(ClipboardListDelegate::new());
        self.emoji_list_state = None;
        self.view_mode = ViewMode::ClipboardHistory;
    }

    /// Exit the clipboard history back to the main view: the clipboard
    /// controller is destroyed and the main list's query and view are
    /// reset to the full grouped collection.
    pub fn exit_clipboard_mode(&mut self)
        requires
            old(self).wf(),
        ensures
            final(self).wf(),
            final(self).view_mode == ViewMode::Main,
            final(self).emoji_list_state is None,
            final(self).clipboard_list_state is None,
            main_list_reset(old(self).list_state.items@, final(self).list_state),
    {
        self.view_mode = ViewMode::Main;
        self.emoji_list_state = None;
        self.clipboard_list_state = None;
        self.list_state.clear_query();
    }

    /// Hand the emoji dataset to the grid controller; a no-op outside
    /// the emoji mode.
    pub fn set_emoji_items(&mut self, entries: Vec<EmojiEntry>)
        requires
            old(self).wf(),
        ensures
            final(self).wf(),
            final(self).view_mode == old(self).view_mode,
            final(self).list_state == old(self).list_state,
            final(self).clipboard_list_state == old(self).clipboard_list_state,
            old(self).emoji_list_state is None ==> *final(self) == *old(self),
            old(self).emoji_list_state matches Some(g0) ==> (final(self).emoji_list_state
                matches Some(g) && g.entries@ == entries@ && g.query@ == g0.query@ && g.width
                == g0.width && ranked_ok(
                entry_names(entries@),
                zero_prs(entries@.len()),
                g0.query@,
                g.filtered@,
            ) && g.selected == clamp_cursor(g0.selected, g.filtered@.len() as int)),
    {
        match &mut self.emoji_list_state {
            Some(g) => g.set_items(entries),
            None => {},
        }
    }

    /// Hand the clipboard history to its controller; a no-op outside
    /// the clipboard mode.
    pub fn set_clipboard_items(&mut self, items: Vec<ClipboardItem>)
        requires
            old(self).wf(),
        ensures
            final(self).wf(),
            final(self).view_mode == old(self).view_mode,
            final(self).list_state == old(self).list_state,
            final(self).emoji_list_state == old(self).emoji_list_state,
            old(self).clipboard_list_state is None ==> *final(self) == *old(self),
            old(self).clipboard_list_state matches Some(c0) ==> (final(self).clipboard_list_state matches Some(c) && c.items@ == items@ && c.query@
                == c0.query@ && ranked_ok(
                item_previews(items@),
                zero_prs(items@.len()),
                c0.query@,
                c.filtered@,
            ) && c.selected == clamp_cursor(c0.selected, c.filtered@.len() as int)),
    {
        match &mut self.clipboard_list_state {
            Some(c) => c.set_items(items),
            None => {},
        }
    }

    /// Handle the back action: leave a sub-mode when its query is
    /// empty; with a non-empty query the input layer consumes the key
    /// instead, and in the main mode nothing happens.
    pub fn go_back(&mut self)
        requires
            old(self).wf(),
        ensures
            final(self).wf(),
            old(self).view_mode == ViewMode::Main ==> *final(self) == *old(self),
            old(self).view_mode == ViewMode::EmojiPicker && old(self).emoji_list_state->0.query@.len()
                != 0 ==> *final(self) == *old(self),
            old(self).view_mode == ViewMode::ClipboardHistory && old(self).clipboard_list_state->0.query@.len() != 0 ==> *final(self) == *old(self),
            old(self).view_mode == ViewMode::EmojiPicker && old(self).emoji_list_state->0.query@.len()
                == 0 ==> final(self).view_mode == ViewMode::Main && final(self).emoji_list_state
                is None && final(self).clipboard_list_state is None && main_list_reset(
                old(self).list_state.items@,
                final(self).list_state,
            ),
            old(self).view_mode == ViewMode::ClipboardHistory && old(self).clipboard_list_state->0.query@.len() == 0 ==> final(self).view_mode
                == ViewMode::Main && final(self).clipboard_list_state is None && final(self).emoji_list_state is None && main_list_reset(
                old(self).list_state.items@,
                final(self).list_state,
            ),
    {
        match self.view_mode {
            ViewMode::EmojiPicker => {
                let is_empty = match &self.emoji_list_state {
                    Some(g) => g.query().is_empty(),
                    None => true,
                };
                if is_empty {
                    self.exit_emoji_mode();
                }
            },
            ViewMode::ClipboardHistory => {
                let is_empty = match &self.clipboard_list_state {
                    Some(c) => c.query().is_empty(),
                    None => true,
                };
                if is_empty {
                    self.exit_clipboard_mode();
                }
            },
            ViewMode::Main => {},
        }
    }

    /// A keystroke changed the query: the main list records it and a
    /// background filter job is handed back for the host to run; an
    /// active sub-mode controller refilters synchronously.
    pub fn on_query_changed(&mut self, query: String) -> (job: FilterJob)
        requires
            old(self).wf(),
        ensures
            final(self).wf(),
            final(self).view_mode == old(self).view_mode,
            final(self).list_state.items@ == old(self).list_state.items@,
            final(self).list_state.query@ == query@,
            final(self).list_state.filtered@ == old(self).list_state.filtered@,
            final(self).list_state.selected == old(self).list_state.selected,
            final(self).list_state.generation == (if old(self).list_state.generation
                < u64::MAX {
                (old(self).list_state.generation + 1) as u64
            } else {
                u64::MAX
            }),
            job.items@ == old(self).list_state.items@,
            job.query@ == query@,
            job.generation == final(self).list_state.generation,
            old(self).emoji_list_state matches Some(g0) ==> (final(self).emoji_list_state
                matches Some(g) && g.entries@ == g0.entries@ && g.query@ == query@ && g.width
                == g0.width && ranked_ok(
                entry_names(g0.entries@),
                zero_prs(g0.entries@.len()),
                query@,
                g.filtered@,
            ) && g.selected == (if g.filtered@.len() > 0 {
                Some(0usize)
            } else {
                None::<usize>
            })),
            old(self).emoji_list_state is None ==> final(self).emoji_list_state is None,
            old(self).clipboard_list_state matches Some(c0) ==> (final(self).clipboard_list_state matches Some(c) && c.items@ == c0.items@ && c.query@
                == query@ && ranked_ok(
                item_previews(c0.items@),
                zero_prs(c0.items@.len()),
                query@,
                c.filtered@,
            ) && c.selected == (if c.filtered@.len() > 0 {
                Some(0usize)
            } else {
                None::<usize>
            })),
            old(self).clipboard_list_state is None ==> final(self).clipboard_list_state
                is None,
    {
        let job = self.list_state.request_filter(query.clone());
        match &mut self.emoji_list_state {
            Some(g) => {
                g.set_query(query.clone());
                g.filter();
            },
            None => {},
        }
        match &mut self.clipboard_list_state {
            Some(c) => {
                c.set_query(query.clone());
            },
            None => {},
        }
        job
    }

    /// Apply a background filter result to the main list; stale results
    /// are discarded by the generation guard there.
    pub fn apply_filter_results(&mut self, query: String, generation: u64, ranked: Vec<usize>)
        requires
            old(self).wf(),
        ensures
            final(self).wf(),
            final(self).view_mode == old(self).view_mode,
            final(self).emoji_list_state == old(self).emoji_list_state,
            final(self).clipboard_list_state == old(self).clipboard_list_state,
            crate::list::apply_outcome(
                old(self).list_state,
                query@,
                generation,
                ranked@,
                final(self).list_state,
            ),
    {
        self.list_state.apply_filter_results(query, generation, ranked);
    }

    /// Move the selection one step forward in the active controller:
    /// down the main or clipboard list, right in the emoji grid.
    pub fn select_next(&mut self)
        requires
            old(self).wf(),
        ensures
            final(self).wf(),
            nav_post(*old(self), *final(self), 1),
    {
        self.nav(1);
    }

    /// Move the selection one step backward in the active controller.
    pub fn select_prev(&mut self)
        requires
            old(self).wf(),
        ensures
            final(self).wf(),
            nav_post(*old(self), *final(self), -1),
    {
        self.nav(-1);
    }

    /// Tab moves to the next item linearly, in every mode.
    pub fn select_tab(&mut self)
        requires
            old(self).wf(),
        ensures
            final(self).wf(),
            nav_post(*old(self), *final(self), 1),
    {
        self.nav(1);
    }

    /// Shift-Tab moves to the previous item linearly, in every mode.
    pub fn select_tab_prev(&mut self)
        requires
            old(self).wf(),
        ensures
            final(self).wf(),
            nav_post(*old(self), *final(self), -1),
    {
        self.nav(-1);
    }

    /// Route a navigation step to the active controller.
    fn nav(&mut self, delta: isize)
        requires
            old(self).wf(),
        ensures
            final(self).wf(),
            nav_post(*old(self), *final(self), delta as int),
    {
        match self.view_mode {
            ViewMode::Main => {
                self.list_state.move_selection(delta);
            },
            ViewMode::EmojiPicker => {
                match &mut self.emoji_list_state {
                    Some(g) => g.step_by(delta),
                    None => {},
                }
            },
            ViewMode::ClipboardHistory => {
                match &mut self.clipboard_list_state {
                    Some(c) => c.step_by(delta),
                    None => {},
                }
            },
        }
    }

    /// Confirm the selection. In the main mode the recognized submenu
    /// items switch modes; every other item becomes the outside effect
    /// of its kind. In a sub-mode the selected entry becomes a copy
    /// effect. With no selection nothing happens.
    pub fn confirm(&mut self) -> (r: ConfirmEffect)
        requires
            old(self).wf(),
        ensures
            final(self).wf(),
            confirm_post(*old(self), *final(self), r),
    {
        proof {
            reveal_strlit("submenu-emojis");
            reveal_strlit("submenu-clipboard");
        }
        match self.view_mode {
            ViewMode::Main => {
                let selected = self.list_state.selected_item();
                match selected {
                    Some(item) => {
                        let is_emoji_menu = match &item {
                            ListItem::Submenu(sub) => str_eq(sub.id.as_str(), "submenu-emojis"),
                            _ => false,
                        };
                        if is_emoji_menu {
                            self.enter_emoji_mode();
                            return ConfirmEffect::EnteredEmojiPicker;
                        }
                        let is_clip_menu = match &item {
                            ListItem::Submenu(sub) => str_eq(
                                sub.id.as_str(),
                                "submenu-clipboard",
                            ),
                            _ => false,
                        };
                        if is_clip_menu {
                            self.enter_clipboard_mode();
                            return ConfirmEffect::EnteredClipboardHistory;
                        }
                        match item {
                            ListItem::Application(a) => ConfirmEffect::LaunchApp(a),
                            ListItem::Window(w) => ConfirmEffect::FocusWindow(w.address),
                            ListItem::Calculator(c) => ConfirmEffect::CopyText(
                                c.display_result,
                            ),
                            ListItem::Action(a) => ConfirmEffect::RunCommand(a.command),
                            ListItem::Search(s) => ConfirmEffect::OpenUrl(s.url),
                            ListItem::Submenu(_) => ConfirmEffect::Dismiss,
                        }
                    },
                    None => ConfirmEffect::Nothing,
                }
            },
            ViewMode::EmojiPicker => {
                let picked = match &self.emoji_list_state {
                    Some(g) => g.do_confirm(),
                    None => None,
                };
                match picked {
                    Some(e) => ConfirmEffect::CopyText(e.emoji),
                    None => ConfirmEffect::Nothing,
                }
            },
            ViewMode::ClipboardHistory => {
                let picked = match &self.clipboard_list_state {
                    Some(c) => c.do_confirm(),
                    None => None,
                };
                match picked {
                    Some(it) => match it.content {
                        ClipboardContent::Text(t) => ConfirmEffect::CopyText(t),
                        ClipboardContent::RichText { plain } => ConfirmEffect::CopyText(plain),
                        ClipboardContent::FilePaths(ps) => ConfirmEffect::CopyText(
                            crate::clipboard::join_lines_exec(&ps),
                        ),
                        ClipboardContent::Image(b) => ConfirmEffect::CopyImage(b),
                    },
                    None => ConfirmEffect::Nothing,
                }
            },
        }
    }

    /// Cancel: in the main mode the launcher is dismissed; in a
    /// sub-mode the launcher returns to the main view instead.
    pub fn cancel(&mut self) -> (dismiss: bool)
        requires
            old(self).wf(),
        ensures
            final(self).wf(),
            old(self).view_mode == ViewMode::Main ==> *final(self) == *old(self) && dismiss,
            old(self).view_mode != ViewMode::Main ==> !dismiss && final(self).view_mode
                == ViewMode::Main && final(self).emoji_list_state is None && final(self).clipboard_list_state is None && main_list_reset(
                old(self).list_state.items@,
                final(self).list_state,
            ),
    {
        match self.view_mode {
            ViewMode::Main => true,
            ViewMode::EmojiPicker => {
                self.exit_emoji_mode();
                false
            },
            ViewMode::ClipboardHistory => {
                self.exit_clipboard_mode();
                false
            },
        }
    }

    /// Clear the search state of the main list, as when the launcher is
    /// shown anew: the query empties and the view returns to the full
    /// grouped collection.
    pub fn reset_search(&mut self)
        requires
            old(self).wf(),
        ensures
            final(self).wf(),
            final(self).view_mode == old(self).view_mode,
            final(self).emoji_list_state == old(self).emoji_list_state,
            final(self).clipboard_list_state == old(self).clipboard_list_state,
            main_list_reset(old(self).list_state.items@, final(self).list_state),
    {
        self.list_state.clear_query();
    }
}

/// How a navigation step changes the launcher: the step goes to the
/// controller of the active mode and everything else stays put.
pub open spec fn nav_post(pre: LauncherView, post: LauncherView, delta: int) -> bool {
    &&& post.view_mode == pre.view_mode
    &&& match pre.view_mode {
        ViewMode::Main => {
            &&& post.emoji_list_state == pre.emoji_list_state
            &&& post.clipboard_list_state == pre.clipboard_list_state
            &&& post.list_state == (ItemListDelegate {
                selected: post.list_state.selected,
                ..pre.list_state
            })
            &&& pre.list_state.filtered@.len() == 0 ==> post.list_state.selected
                == pre.list_state.selected
            &&& pre.list_state.filtered@.len() > 0 ==> post.list_state.selected == Some(
                crate::list::wrap_step(
                    pre.list_state.selected->0 as int,
                    delta,
                    pre.list_state.filtered@.len() as int,
                ) as usize,
            )
        },
        ViewMode::EmojiPicker => {
            &&& post.list_state == pre.list_state
            &&& post.clipboard_list_state == pre.clipboard_list_state
            &&& pre.emoji_list_state matches Some(g0) && post.emoji_list_state matches Some(g)
                && move_post(g0, g, delta) && g.width == g0.width
        },
        ViewMode::ClipboardHistory => {
            &&& post.list_state == pre.list_state
            &&& post.emoji_list_state == pre.emoji_list_state
            &&& pre.clipboard_list_state matches Some(c0) && post.clipboard_list_state
                matches Some(c) && clip_move_post(c0, c, delta)
        },
    }
}

/// How a confirm action changes the launcher and what effect it hands
/// the host.
pub open spec fn confirm_post(pre: LauncherView, post: LauncherView, r: ConfirmEffect) -> bool {
    match pre.view_mode {
        ViewMode::Main => {
            match pre.list_state.spec_selected_item() {
                Some(item) => {
                    if item matches ListItem::Submenu(sub) && sub.id@ == "submenu-emojis"@ {
                        &&& r == ConfirmEffect::EnteredEmojiPicker
                        &&& post.view_mode == ViewMode::EmojiPicker
                        &&& post.list_state == pre.list_state
                        &&& post.emoji_list_state matches Some(g) && g.entries@.len() == 0
                            && g.query@ == Seq::<char>::empty() && g.selected is None
                    } else if item matches ListItem::Submenu(sub) && sub.id@
                        == "submenu-clipboard"@ {
                        &&& r == ConfirmEffect::EnteredClipboardHistory
                        &&& post.view_mode == ViewMode::ClipboardHistory
                        &&& post.list_state == pre.list_state
                        &&& post.clipboard_list_state matches Some(c) && c.items@.len() == 0
                            && c.query@ == Seq::<char>::empty() && c.selected is None
                    } else {
                        &&& post == pre
                        &&& r == item_effect(item)
                    }
                },
                None => post == pre && r == ConfirmEffect::Nothing,
            }
        },
        ViewMode::EmojiPicker => {
            &&& post == pre
            &&& match pre.emoji_list_state {
                Some(g) => match g.spec_selected_entry() {
                    Some(e) => r == ConfirmEffect::CopyText(e.emoji),
                    None => r == ConfirmEffect::Nothing,
                },
                None => r == ConfirmEffect::Nothing,
            }
        },
        ViewMode::ClipboardHistory => {
            &&& post == pre
            &&& match pre.clipboard_list_state {
                Some(c) => match c.spec_selected_item() {
                    Some(it) => clip_effect_matches(it, r),
                    None => r == ConfirmEffect::Nothing,
                },
                None => r == ConfirmEffect::Nothing,
            }
        },
    }
}

} // verus!
