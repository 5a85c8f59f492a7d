//! The state of the widgets of the bar: the CSS classes that follow focus,
//! urgency and title, and when the icon of a button has to be drawn again.

use vstd::prelude::*;
use vstd::string::StringExecFns;
use crate::config::{matching_classes, AppConfigView, Config, ConfigView};
use crate::niri::ipc::Window;
use crate::text::{clone_text, slice_text, slice_texts, text_of};

verus! {

/// The class of the button of the focused window.
pub const FOCUSED: &'static str = "focused";

/// The class of the button of a window that needs attention.
pub const URGENT: &'static str = "urgent";

/// The class of the box of a workspace that does not have the focus.
pub const WORKSPACE: &'static str = "niri-workspace";

/// The class of the box of the workspace that has the focus.
pub const WORKSPACE_FOCUSED: &'static str = "niri-workspace-focused";

/// One change to the classes of a button.
#[derive(Debug, Clone, PartialEq, Eq)]
pub enum ClassChange {
    /// The class is added; nothing changes where the button has it.
    Add(String),
    /// The class is removed; nothing changes where the button lacks it.
    Remove(String),
}

/// The mathematical value of a [`ClassChange`].
pub enum ClassChangeView {
    Add(Seq<char>),
    Remove(Seq<char>),
}

impl View for ClassChange {
    type V = ClassChangeView;

    open spec fn view(&self) -> ClassChangeView {
        match self {
            ClassChange::Add(class) => ClassChangeView::Add(class@),
            ClassChange::Remove(class) => ClassChangeView::Remove(class@),
        }
    }
}

/// The values of a list of changes, in the list's order.
pub open spec fn change_views(changes: Seq<ClassChange>) -> Seq<ClassChangeView> {
    changes.map_values(|c: ClassChange| c@)
}

/// The classes of a button after one change.
pub open spec fn changed(classes: Set<Seq<char>>, change: ClassChangeView) -> Set<Seq<char>> {
    match change {
        ClassChangeView::Add(class) => classes.insert(class),
        ClassChangeView::Remove(class) => classes.remove(class),
    }
}

/// The classes of a button after a list of changes, made in their order.
pub open spec fn applied(classes: Set<Seq<char>>, changes: Seq<ClassChangeView>) -> Set<Seq<char>>
    decreases changes.len(),
{
    if changes.len() == 0 {
        classes
    } else {
        changed(applied(classes, changes.drop_last()), changes.last())
    }
}

/// The changes that a change of focus makes: a focused button is `focused`
/// and no longer `urgent`; an unfocused one is not `focused`.
pub open spec fn focus_changes(focus: bool) -> Seq<ClassChangeView> {
    if focus {
        seq![ClassChangeView::Add(FOCUSED@), ClassChangeView::Remove(URGENT@)]
    } else {
        seq![ClassChangeView::Remove(FOCUSED@)]
    }
}

/// The changes that the focus of a workspace makes to the classes of the
/// workspace's box: it has one of the two workspace classes, by focus.
pub open spec fn workspace_changes(focused: bool) -> Seq<ClassChangeView> {
    if focused {
        seq![ClassChangeView::Remove(WORKSPACE@), ClassChangeView::Add(WORKSPACE_FOCUSED@)]
    } else {
        seq![ClassChangeView::Add(WORKSPACE@), ClassChangeView::Remove(WORKSPACE_FOCUSED@)]
    }
}

/// The change that marks a button as urgent.
pub open spec fn urgent_changes() -> Seq<ClassChangeView> {
    seq![ClassChangeView::Add(URGENT@)]
}

/// The changes that a new title makes: every class that the rules of the
/// application can give is removed, then those of the rules that match the
/// title are added. Without an application or without a title the classes
/// stay.
pub open spec fn title_changes(
    config: ConfigView,
    app_id: Option<Seq<char>>,
    title: Option<Seq<char>>,
) -> Seq<ClassChangeView> {
    match (app_id, title) {
        (Some(app_id), Some(title)) => config.rules_for(app_id).map_values(
            |r: AppConfigView| ClassChangeView::Remove(r.class),
        ) + matching_classes(config.rules_for(app_id), title).map_values(
            |class: Seq<char>| ClassChangeView::Add(class),
        ),
        _ => Seq::empty(),
    }
}

/// The changes to the classes of the box of a workspace that has the focus
/// or does not have it.
pub fn set_workspace_focus(focused: bool) -> (changes: Vec<ClassChange>)
    ensures
        change_views(changes@) == workspace_changes(focused),
{
    let mut changes: Vec<ClassChange> = Vec::new();
    if focused {
        changes.push(ClassChange::Remove(String::from_str(WORKSPACE)));
        changes.push(ClassChange::Add(String::from_str(WORKSPACE_FOCUSED)));
    } else {
        changes.push(ClassChange::Add(String::from_str(WORKSPACE)));
        changes.push(ClassChange::Remove(String::from_str(WORKSPACE_FOCUSED)));
    }
    assert(change_views(changes@) =~= workspace_changes(focused));
    changes
}

/// A taskbar button, as far as its state does not lie in the toolkit: the
/// window that it stands for and that window's application.
#[derive(Debug)]
pub struct Button {
    app_id: Option<String>,
    window_id: u64,
}

impl Button {
    /// The application of the button's window.
    pub closed spec fn app(&self) -> Option<Seq<char>> {
        text_of(self.app_id)
    }

    /// The window that the button stands for.
    pub closed spec fn window(&self) -> u64 {
        self.window_id
    }

    /// Instantiates the button of a window.
    pub fn new(window: &Window) -> (button: Self)
        ensures
            button.app() == window@.app_id,
            button.window() == window@.id,
    {
        Button { app_id: clone_text(&window.app_id), window_id: window.id }
    }

    /// The identifier of the window that a click on the button activates.
    pub fn window_id(&self) -> (id: u64)
        ensures
            id == self.window(),
    {
        self.window_id
    }

    /// The application whose icon the button shows.
    pub fn app_id(&self) -> (app_id: Option<&str>)
        ensures
            slice_text(app_id) == self.app(),
    {
        match &self.app_id {
            Some(app_id) => Some(app_id.as_str()),
            None => None,
        }
    }

    /// Sets whether the window represented by this button is currently
    /// focused: the changes to the button's classes.
    pub fn set_focus(&self, focus: bool) -> (changes: Vec<ClassChange>)
        ensures
            change_views(changes@) == focus_changes(focus),
    {
        let mut changes: Vec<ClassChange> = Vec::new();
        if focus {
            changes.push(ClassChange::Add(String::from_str(FOCUSED)));
            changes.push(ClassChange::Remove(String::from_str(URGENT)));
        } else {
            changes.push(ClassChange::Remove(String::from_str(FOCUSED)));
        }
        assert(change_views(changes@) =~= focus_changes(focus));
        changes
    }

    /// Sets the window to urgent, that is, needing attention: the change to
    /// the button's classes.
    ///
    /// This state is cleared the next time the window is focused.
    pub fn set_urgent(&self) -> (changes: Vec<ClassChange>)
        ensures
            change_views(changes@) == urgent_changes(),
    {
        let mut changes: Vec<ClassChange> = Vec::new();
        changes.push(ClassChange::Add(String::from_str(URGENT)));
        assert(change_views(changes@) =~= urgent_changes());
        changes
    }

    /// Sets the window title: the changes to the button's classes that the
    /// styling rules of its application ask for.
    pub fn set_title(&self, config: &Config, title: Option<&str>) -> (changes: Vec<ClassChange>)
        ensures
            change_views(changes@) == title_changes(config@, self.app(), slice_text(title)),
    {
        class_changes(config, self.app_id(), title)
    }
}

/// The changes to the classes of a button of the application `app_id` that
/// gets the title `title`.
fn class_changes(config: &Config, app_id: Option<&str>, title: Option<&str>) -> (changes: Vec<
    ClassChange,
>)
    ensures
        change_views(changes@) == title_changes(config@, slice_text(app_id), slice_text(title)),
{
    let mut changes: Vec<ClassChange> = Vec::new();
    // Apply any app styling rules.
    if let Some(app_id) = app_id {
        if let Some(title) = title {
            // First, remove all the possible classes for this app.
            let classes = config.app_classes(app_id);
            let ghost removed = config@.rules_for(app_id@).map_values(
                |r: AppConfigView| ClassChangeView::Remove(r.class),
            );
            proof {
                let texts = slice_texts(classes@);
                assert(texts.len() == classes@.len());
                assert forall|k: int| 0 <= k < classes@.len() implies ClassChangeView::Remove(
                    (#[trigger] classes@[k])@,
                ) == removed[k] by {
                    assert(texts[k] == classes@[k]@);
                }
            }
            let mut i: usize = 0;
            while i < classes.len()
                invariant
                    i <= classes@.len(),
                    classes@.len() == removed.len(),
                    forall|k: int|
                        0 <= k < classes@.len() ==> ClassChangeView::Remove(
                            (#[trigger] classes@[k])@,
                        ) == removed[k],
                    changes@.len() == i,
                    forall|k: int| 0 <= k < i ==> (#[trigger] changes@[k])@ == removed[k],
                decreases classes@.len() - i,
            {
                changes.push(ClassChange::Remove(String::from_str(classes[i])));
                i += 1;
            }
            // Now add the classes that actually do match.
            let matches = config.app_matches(app_id, title);
            let ghost added = matching_classes(config@.rules_for(app_id@), title@).map_values(
                |class: Seq<char>| ClassChangeView::Add(class),
            );
            proof {
                let texts = slice_texts(matches@);
                assert(texts.len() == matches@.len());
                assert forall|k: int| 0 <= k < matches@.len() implies ClassChangeView::Add(
                    (#[trigger] matches@[k])@,
                ) == added[k] by {
                    assert(texts[k] == matches@[k]@);
                }
            }
            let mut j: usize = 0;
            while j < matches.len()
                invariant
                    j <= matches@.len(),
                    matches@.len() == added.len(),
                    forall|k: int|
                        0 <= k < matches@.len() ==> ClassChangeView::Add((#[trigger] matches@[k])@)
                            == added[k],
                    changes@.len() == removed.len() + j,
                    forall|k: int|
                        0 <= k < removed.len() ==> (#[trigger] changes@[k])@ == removed[k],
                    forall|k: int|
                        0 <= k < j ==> (#[trigger] changes@[removed.len() + k])@ == added[k],
                decreases matches@.len() - j,
            {
                changes.push(ClassChange::Add(String::from_str(matches[j])));
                j += 1;
            }
            proof {
                let all = removed + added;
                assert(change_views(changes@).len() == all.len());
                assert forall|k: int| 0 <= k < all.len() implies change_views(changes@)[k]
                    == all[k] by {
                    if k >= removed.len() {
                        let d = k - removed.len();
                        assert(changes@[removed.len() + d]@ == added[d]);
                    }
                }
                assert(change_views(changes@) =~= all);
            }
            return changes;
        }
    }
    assert(change_views(changes@) =~= Seq::<ClassChangeView>::empty());
    changes
}

/// Marking a button as urgent twice is marking it once.
pub proof fn lemma_urgent_is_idempotent(classes: Set<Seq<char>>)
    ensures
        applied(applied(classes, urgent_changes()), urgent_changes()) == applied(
            classes,
            urgent_changes(),
        ),
        applied(classes, urgent_changes()).contains(URGENT@),
{
    reveal_with_fuel(applied, 3);
    let once = applied(classes, urgent_changes());
    assert(urgent_changes().drop_last() =~= Seq::<ClassChangeView>::empty());
    assert(once =~= classes.insert(URGENT@));
    assert(applied(once, urgent_changes()) =~= once);
}

/// Focus clears urgency: a button that gets the focus is `focused` and not
/// `urgent`, whatever it was before; one that loses it is not `focused`
/// and keeps its urgency.
pub proof fn lemma_focus_clears_urgency(classes: Set<Seq<char>>)
    ensures
        applied(classes, focus_changes(true)).contains(FOCUSED@),
        !applied(classes, focus_changes(true)).contains(URGENT@),
        !applied(classes, focus_changes(false)).contains(FOCUSED@),
        applied(classes, focus_changes(false)).contains(URGENT@) == classes.contains(URGENT@),
{
    reveal_with_fuel(applied, 4);
    reveal_strlit("focused");
    reveal_strlit("urgent");
    assert(FOCUSED@ != URGENT@) by {
        assert(FOCUSED@.len() == 7);
        assert(URGENT@.len() == 6);
    }
    let gained = focus_changes(true);
    assert(gained.drop_last() =~= seq![ClassChangeView::Add(FOCUSED@)]);
    assert(gained.drop_last().drop_last() =~= Seq::<ClassChangeView>::empty());
    assert(applied(classes, gained) =~= classes.insert(FOCUSED@).remove(URGENT@));
    let lost = focus_changes(false);
    assert(lost.drop_last() =~= Seq::<ClassChangeView>::empty());
    assert(applied(classes, lost) =~= classes.remove(FOCUSED@));
}

/// The area that a button has been given: position and size.
#[derive(Debug, Clone, Copy, PartialEq, Eq, Structural)]
pub struct Allocation {
    pub x: i32,
    pub y: i32,
    pub width: i32,
    pub height: i32,
}

/// Whether the icon of a button has to be drawn again when the button is
/// given the area `allocation`: always while it shows no image, else when
/// the area differs from the last one, or none was recorded.
pub open spec fn needs_redraw(
    has_image: bool,
    last: Option<Allocation>,
    allocation: Allocation,
) -> bool {
    !has_image || last != Some(allocation)
}

/// The area to record after a button was given `allocation`: while the
/// button shows no image the record stays as it is.
pub open spec fn recorded(
    has_image: bool,
    last: Option<Allocation>,
    allocation: Allocation,
) -> Option<Allocation> {
    if has_image {
        Some(allocation)
    } else {
        last
    }
}

/// Decides whether the icon of a button has to be drawn again, and updates
/// the record of the last area that the button was given.
pub fn must_redraw(has_image: bool, last: &mut Option<Allocation>, allocation: Allocation) -> (redraw:
    bool)
    ensures
        redraw == needs_redraw(has_image, *old(last), allocation),
        *final(last) == recorded(has_image, *old(last), allocation),
{
    // If there is no image on the button, it's the first draw, and we have
    // no choice but to draw.
    let mut redraw = !has_image;
    if !redraw {
        // Otherwise, check if the size allocation has changed since the
        // last time.
        match last.take() {
            Some(last_size) => {
                if last_size != allocation {
                    redraw = true;
                }
            },
            None => {
                redraw = true;
            },
        }
        *last = Some(allocation);
    }
    redraw
}

/// The height that is left for the icon of a button of height `height`
/// once border, margin and padding, each given as top and bottom together,
/// are taken off.
pub fn icon_size(height: i32, border: i32, margin: i32, padding: i32) -> (size: i32)
    requires
        i32::MIN <= height - border <= i32::MAX,
        i32::MIN <= height - border - margin <= i32::MAX,
        i32::MIN <= height - border - margin - padding <= i32::MAX,
    ensures
        size == height - border - margin - padding,
{
    height - border - margin - padding
}

} // verus!
