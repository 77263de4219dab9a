use vstd::prelude::*;

use crate::errors::SherlockErrorType;

verus! {

/// Where an item stands in the list and whether the user has selected it.
#[derive(Clone, Copy, Debug, PartialEq, Eq, Structural)]
pub struct Selection {
    /// The unique index of the item.
    pub data_idx: usize,
    /// Whether the current item is selected by the user.
    pub is_selected: bool,
}

impl Selection {
    pub fn new(data_idx: usize, is_selected: bool) -> (r: Self)
        ensures
            r.data_idx == data_idx,
            r.is_selected == is_selected,
    {
        Selection { data_idx, is_selected }
    }
}

/// The view the window shows.
#[derive(Clone, Copy, Debug, PartialEq, Eq, Structural)]
pub enum WorkspaceView {
    Launcher,
    Error,
}

/// What the launcher tells the error view.
#[derive(Debug)]
pub enum LauncherErrorEvent {
    /// An error to add to the list.
    Push(SherlockErrorType),
    /// Show the errors collected.
    ShowErrors,
}

/// One step of the cross-fade between two views.
#[derive(Clone, Copy, Debug, PartialEq, Eq, Structural)]
pub enum TransitionStep {
    /// Show the current view at eased opacity `i / 12`.
    Opacity(u64),
    /// Wait this many milliseconds.
    Wait(u64),
    /// Put the target view in place (at opacity 0).
    Switch,
    /// Give the keyboard focus to the view now shown.
    Focus,
}

/// The milliseconds each opacity step is shown for.
pub open spec fn frame_ms(duration_ms: nat) -> nat {
    (duration_ms / 2) / 12
}

/// The fade-out half: opacity steps 12 down to 0, each followed by a frame.
pub open spec fn fade_out(frame: u64) -> Seq<TransitionStep> {
    Seq::new(
        26,
        |k: int|
            if k % 2 == 0 {
                TransitionStep::Opacity((12 - k / 2) as u64)
            } else {
                TransitionStep::Wait(frame)
            },
    )
}

/// The fade-in half: opacity steps 0 up to 12, each followed by a frame.
pub open spec fn fade_in(frame: u64) -> Seq<TransitionStep> {
    Seq::new(
        26,
        |k: int|
            if k % 2 == 0 {
                TransitionStep::Opacity((k / 2) as u64)
            } else {
                TransitionStep::Wait(frame)
            },
    )
}

/// The steps of a transition lasting about `duration_ms`: fade out, switch
/// the view and pause for two frames, fade in, then focus.
pub open spec fn transition_spec(duration_ms: u64) -> Seq<TransitionStep> {
    let f = frame_ms(duration_ms as nat) as u64;
    fade_out(f) + seq![TransitionStep::Switch, TransitionStep::Wait((2 * f) as u64)] + fade_in(f)
        + seq![TransitionStep::Focus]
}

/// The steps that move the window from one view to another in about
/// `duration_ms` milliseconds.
pub fn transition_plan(duration_ms: u64) -> (r: Vec<TransitionStep>)
    ensures
        r@ == transition_spec(duration_ms),
{
    let f = (duration_ms / 2) / 12;
    let mut out: Vec<TransitionStep> = Vec::new();
    let mut k: u64 = 0;
    while k < 26
        invariant
            k <= 26,
            f == frame_ms(duration_ms as nat),
            out@ == fade_out(f).take(k as int),
        decreases 26 - k,
    {
        if k % 2 == 0 {
            out.push(TransitionStep::Opacity(12 - k / 2));
        } else {
            out.push(TransitionStep::Wait(f));
        }
        assert(fade_out(f).take(k + 1) == fade_out(f).take(k as int).push(fade_out(f)[k as int]));
        k += 1;
    }
    assert(fade_out(f).take(26) == fade_out(f));
    out.push(TransitionStep::Switch);
    out.push(TransitionStep::Wait(2 * f));
    let ghost head = out@;
    let mut k: u64 = 0;
    while k < 26
        invariant
            k <= 26,
            f == frame_ms(duration_ms as nat),
            out@ == head + fade_in(f).take(k as int),
        decreases 26 - k,
    {
        if k % 2 == 0 {
            out.push(TransitionStep::Opacity(k / 2));
        } else {
            out.push(TransitionStep::Wait(f));
        }
        assert(fade_in(f).take(k + 1) == fade_in(f).take(k as int).push(fade_in(f)[k as int]));
        k += 1;
    }
    assert(fade_in(f).take(26) == fade_in(f));
    out.push(TransitionStep::Focus);
    out
}

/// The opacity steps of a transition over time: the view fades from full
/// (step 12) down to dark (step 0) one step per frame, the new view is put in
/// place while dark and stays dark for two frames, then it fades back up to
/// full, one step per frame, and takes the focus. No step leaves 0..=12, the
/// steps fall before the switch and rise after it, and nothing else switches
/// the view.
pub proof fn lemma_transition_shape(duration_ms: u64)
    ensures
        ({
            let t = transition_spec(duration_ms);
            let f = frame_ms(duration_ms as nat) as u64;
            &&& t.len() == 55
            &&& forall|k: int| 0 <= k <= 12 ==> #[trigger] t[2 * k] == TransitionStep::Opacity((12 - k) as u64)
                && t[2 * k + 1] == TransitionStep::Wait(f)
            &&& t[26] == TransitionStep::Switch
            &&& t[27] == TransitionStep::Wait((2 * f) as u64)
            &&& forall|k: int| 0 <= k <= 12 ==> #[trigger] t[28 + 2 * k] == TransitionStep::Opacity(k as u64)
                && t[29 + 2 * k] == TransitionStep::Wait(f)
            &&& t[54] == TransitionStep::Focus
            &&& forall|i: int| 0 <= i < 55 && i != 26 ==> t[i] != TransitionStep::Switch
            &&& forall|i: int| 0 <= i < 55 ==> (#[trigger] t[i] matches TransitionStep::Opacity(o) ==> o <= 12)
        }),
{
    let f = frame_ms(duration_ms as nat) as u64;
    let t = transition_spec(duration_ms);
    assert forall|k: int| 0 <= k <= 12 implies #[trigger] t[2 * k] == TransitionStep::Opacity((12 - k) as u64)
        && t[2 * k + 1] == TransitionStep::Wait(f) by {
        assert(t[2 * k] == fade_out(f)[2 * k]);
        assert(t[2 * k + 1] == fade_out(f)[2 * k + 1]);
    }
    assert forall|k: int| 0 <= k <= 12 implies #[trigger] t[28 + 2 * k] == TransitionStep::Opacity(k as u64)
        && t[29 + 2 * k] == TransitionStep::Wait(f) by {
        assert(t[28 + 2 * k] == fade_in(f)[2 * k]);
        assert(t[29 + 2 * k] == fade_in(f)[2 * k + 1]);
    }
    assert forall|i: int| 0 <= i < 55 && i != 26 implies t[i] != TransitionStep::Switch by {
        if i < 26 {
            assert(t[i] == fade_out(f)[i]);
        } else if 28 <= i < 54 {
            assert(t[i] == fade_in(f)[i - 28]);
        }
    }
    assert forall|i: int| 0 <= i < 55 implies (#[trigger] t[i] matches TransitionStep::Opacity(o) ==> o <= 12) by {
        if i < 26 {
            assert(t[i] == fade_out(f)[i]);
        } else if 28 <= i < 54 {
            assert(t[i] == fade_in(f)[i - 28]);
        }
    }
}

/// A side of the screen a layer is anchored to.
#[derive(Clone, Copy, Debug, PartialEq, Eq, Structural)]
pub enum Edge {
    Top,
    Bottom,
    Left,
    Right,
}

/// The side a backdrop is anchored to, by its name in any case; the top for
/// any other name.
pub open spec fn edge_named(name: Seq<char>) -> Edge {
    let l = crate::units::lowercase_of(name);
    if l == "bottom"@ {
        Edge::Bottom
    } else if l == "left"@ {
        Edge::Left
    } else if l == "right"@ {
        Edge::Right
    } else {
        Edge::Top
    }
}

/// Reads the side a backdrop is anchored to.
pub fn backdrop_edge(name: &str) -> (r: Edge)
    ensures
        r == edge_named(name@),
{
    let lower = crate::units::to_lowercase(name);
    let l = crate::text::str_chars(lower.as_str());
    proof {
        reveal_strlit("bottom");
        reveal_strlit("left");
        reveal_strlit("right");
    }
    if crate::text::chars_eq(&l, &crate::text::str_chars("bottom")) {
        Edge::Bottom
    } else if crate::text::chars_eq(&l, &crate::text::str_chars("left")) {
        Edge::Left
    } else if crate::text::chars_eq(&l, &crate::text::str_chars("right")) {
        Edge::Right
    } else {
        Edge::Top
    }
}

/// How the window slides from one page to another.
#[derive(Clone, Copy, Debug, PartialEq, Eq, Structural)]
pub enum PageTransition {
    SlideRight,
    SlideLeft,
    Cut,
}

/// The slide between two pages: towards the errors and the raw display to
/// the right, towards the emoji picker to the left, and back the other way;
/// a cut between any others.
pub open spec fn transition_between(from: Seq<char>, to: Seq<char>) -> PageTransition {
    if from == "search-page"@ && to == "error-page"@ {
        PageTransition::SlideRight
    } else if from == "error-page"@ && to == "search-page"@ {
        PageTransition::SlideLeft
    } else if from == "search-page"@ && to == "emoji-page"@ {
        PageTransition::SlideLeft
    } else if from == "emoji-page"@ && to == "search-page"@ {
        PageTransition::SlideRight
    } else if from == "search-page"@ && to == "display-raw"@ {
        PageTransition::SlideRight
    } else {
        PageTransition::Cut
    }
}

/// The page switch a `from->to` request asks for: the slide and the page to
/// show; `None` without an arrow.
pub open spec fn page_switch_spec(request: Seq<char>) -> Option<(PageTransition, Seq<char>)> {
    match crate::text::find_seq_from(request, 0, "->"@) {
        Some(i) => Some(
            (transition_between(request.take(i), request.skip(i + 2)), request.skip(i + 2)),
        ),
        None => None,
    }
}

fn word_is(w: &Vec<char>, lit: &str) -> (r: bool)
    ensures
        r == (w@ == lit@),
{
    crate::text::chars_eq(w, &crate::text::str_chars(lit))
}

/// Reads a `from->to` page switch.
pub fn page_switch(request: &str) -> (r: Option<(PageTransition, String)>)
    ensures
        match r {
            Some((t, to)) => page_switch_spec(request@) == Some((t, to@)),
            None => page_switch_spec(request@) is None,
        },
{
    let v = crate::text::str_chars(request);
    let arrow = crate::text::str_chars("->");
    proof {
        reveal_strlit("->");
    }
    let n = v.len();
    let i = match crate::text::find_seq(&v, 0, &arrow) {
        Some(i) => i,
        None => return None,
    };
    let from = crate::text::sub_chars(&v, 0, i);
    let to = crate::text::sub_chars(&v, i + 2, n);
    assert(from@ == request@.take(i as int));
    assert(to@ == request@.skip(i + 2));
    let t = if word_is(&from, "search-page") && word_is(&to, "error-page") {
        PageTransition::SlideRight
    } else if word_is(&from, "error-page") && word_is(&to, "search-page") {
        PageTransition::SlideLeft
    } else if word_is(&from, "search-page") && word_is(&to, "emoji-page") {
        PageTransition::SlideLeft
    } else if word_is(&from, "emoji-page") && word_is(&to, "search-page") {
        PageTransition::SlideRight
    } else if word_is(&from, "search-page") && word_is(&to, "display-raw") {
        PageTransition::SlideRight
    } else {
        PageTransition::Cut
    };
    Some((t, crate::text::string_from_chars(to.as_slice())))
}

} // verus!
