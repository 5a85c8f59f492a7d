//! Deciding which outputs a taskbar instance shows.

use vstd::prelude::*;
use vstd::string::StrSliceExecFns;
use crate::text::{slice_text, str_eq};

verus! {

/// A filter to check if we should include a window button.
#[derive(Debug, Clone)]
pub enum Filter {
    /// Every output is shown.
    ShowAll,
    /// Only the named output is shown.
    Only(String),
}

/// The mathematical value of a [`Filter`].
pub enum FilterView {
    ShowAll,
    Only(Seq<char>),
}

impl View for Filter {
    type V = FilterView;

    open spec fn view(&self) -> FilterView {
        match self {
            Filter::ShowAll => FilterView::ShowAll,
            Filter::Only(only) => FilterView::Only(only@),
        }
    }
}

impl FilterView {
    /// Whether the filter lets toplevels on the output `output` through.
    pub open spec fn shows(self, output: Seq<char>) -> bool {
        match self {
            FilterView::ShowAll => true,
            FilterView::Only(only) => only == output,
        }
    }
}

/// An account of how far a monitor of the toolkit and an output of the
/// compositor agree, to find out whether they are the same output.
#[derive(Debug, Clone, Copy, PartialEq, Eq, Structural)]
pub struct Matcher {
    /// The geometries agree.
    pub geometry: bool,
    /// The model names agree.
    pub model: bool,
    /// The manufacturers agree.
    pub manufacturer: bool,
}

/// Whether what the toolkit says of a monitor agrees with what the
/// compositor says of an output: the same text, or none on one side and an
/// empty one on the other.
pub open spec fn names_agree(monitor: Option<Seq<char>>, output: Seq<char>) -> bool {
    match monitor {
        Some(name) => name == output,
        None => output.len() == 0,
    }
}

/// Decides whether the toolkit's and the compositor's name agree.
fn agree(monitor: Option<&str>, output: &str) -> (same: bool)
    ensures
        same == names_agree(slice_text(monitor), output@),
{
    match monitor {
        Some(name) => str_eq(name, output),
        None => output.unicode_len() == 0,
    }
}

impl Matcher {
    /// No agreement at all.
    pub fn empty() -> (matcher: Self)
        ensures
            matcher == (Matcher { geometry: false, model: false, manufacturer: false }),
    {
        Matcher { geometry: false, model: false, manufacturer: false }
    }

    /// Agreement in everything.
    pub fn all() -> (matcher: Self)
        ensures
            matcher == (Matcher { geometry: true, model: true, manufacturer: true }),
    {
        Matcher { geometry: true, model: true, manufacturer: true }
    }

    /// Compares a monitor of the toolkit with an output of the compositor.
    ///
    /// `geometry` says whether the geometries agree, and is `None` for an
    /// output without a logical output: such an output agrees in nothing.
    pub fn new(
        geometry: Option<bool>,
        monitor_model: Option<&str>,
        output_model: &str,
        monitor_manufacturer: Option<&str>,
        output_make: &str,
    ) -> (matcher: Self)
        ensures
            matcher == match geometry {
                Some(geometry) => Matcher {
                    geometry,
                    model: names_agree(slice_text(monitor_model), output_model@),
                    manufacturer: names_agree(slice_text(monitor_manufacturer), output_make@),
                },
                None => Matcher { geometry: false, model: false, manufacturer: false },
            },
    {
        match geometry {
            Some(geometry) => Matcher {
                geometry,
                model: agree(monitor_model, output_model),
                manufacturer: agree(monitor_manufacturer, output_make),
            },
            None => Matcher::empty(),
        }
    }
}

/// Whether the `i`-th output is the first that agrees with the monitor in
/// everything.
pub open spec fn first_full_match(outputs: Seq<(String, Matcher)>, i: int) -> bool {
    &&& 0 <= i < outputs.len()
    &&& outputs[i].1 == (Matcher { geometry: true, model: true, manufacturer: true })
    &&& forall|j: int|
        0 <= j < i ==> (#[trigger] outputs[j]).1 != (Matcher {
            geometry: true,
            model: true,
            manufacturer: true,
        })
}

impl Filter {
    /// Checks if toplevels on this output should be shown.
    pub fn should_show(&self, output: &str) -> (shown: bool)
        ensures
            shown == self@.shows(output@),
    {
        match self {
            Filter::ShowAll => true,
            Filter::Only(only) => str_eq(only.as_str(), output),
        }
    }

    /// The filter for a bar, given how each output of the compositor agrees
    /// with the bar's monitor.
    ///
    /// Everything is shown where the configuration asks for it, where there
    /// is one output only, and where no output agrees with the monitor in
    /// everything. Else the first output that does is the one shown.
    pub fn select(show_all_outputs: bool, outputs: &Vec<(String, Matcher)>) -> (filter: Self)
        ensures
            match filter@ {
                FilterView::Only(name) => {
                    &&& !show_all_outputs
                    &&& outputs@.len() != 1
                    &&& exists|i: int| first_full_match(outputs@, i) && name == outputs@[i].0@
                },
                FilterView::ShowAll => {
                    ||| show_all_outputs
                    ||| outputs@.len() == 1
                    ||| forall|i: int| !first_full_match(outputs@, i)
                },
            },
    {
        if show_all_outputs {
            return Filter::ShowAll;
        }
        // If there's only one output, then none of this matching stuff
        // matters anyway.
        if outputs.len() == 1 {
            return Filter::ShowAll;
        }
        let mut i: usize = 0;
        while i < outputs.len()
            invariant
                !show_all_outputs,
                outputs@.len() != 1,
                i <= outputs@.len(),
                forall|j: int|
                    0 <= j < i ==> (#[trigger] outputs@[j]).1 != (Matcher {
                        geometry: true,
                        model: true,
                        manufacturer: true,
                    }),
            decreases outputs@.len() - i,
        {
            if outputs[i].1 == Matcher::all() {
                let name = outputs[i].0.clone();
                assert(first_full_match(outputs@, i as int) && name@ == outputs@[i as int].0@);
                return Filter::Only(name);
            }
            i += 1;
        }
        Filter::ShowAll
    }
}

} // verus!
