//! Spectral readings: what solvers measured on one graph, and the text that
//! shows it.
use crate::binary64::{Binary64, ZERO_BITS};
use crate::graph::GraphSnapshot;
use crate::model::SnapshotView;
use vstd::prelude::*;

verus! {

/// What was measured on a graph; `None` where there was nothing to measure or
/// the solver failed.
#[derive(Debug, Clone, Copy)]
pub struct SpectralReadings {
    /// The Fiedler value (algebraic connectivity).
    pub fiedler: Option<Binary64>,
    /// The Cheeger constant.
    pub cheeger: Option<Binary64>,
    /// The mixing time.
    pub mixing_time: Option<Binary64>,
}

/// The solver can be asked about a graph with this snapshot.
pub open spec fn accepts<R, F: FnOnce(&GraphSnapshot) -> R>(solve: F, graph: SnapshotView) -> bool {
    forall|g: GraphSnapshot| g@ == graph ==> #[trigger] call_requires(solve, (&g,))
}

/// The solver gave this answer on a graph with this snapshot.
pub open spec fn answered<R, F: FnOnce(&GraphSnapshot) -> R>(
    solve: F,
    graph: SnapshotView,
    answer: R,
) -> bool {
    exists|g: GraphSnapshot| g@ == graph && #[trigger] call_ensures(solve, (&g,), answer)
}

/// The reading is the number that the solver gave on a graph with this snapshot,
/// or `None` where it gave an error.
pub open spec fn measured<T, E, F: FnOnce(&GraphSnapshot) -> Result<T, E>>(
    solve: F,
    graph: SnapshotView,
    reading: Option<T>,
) -> bool {
    exists|answer: Result<T, E>|
        #[trigger] answered(solve, graph, answer) && reading == (match answer {
            Ok(number) => Some(number),
            Err(_) => None,
        })
}

/// The solver gives one answer for each snapshot.
pub open spec fn single_valued<R, F: FnOnce(&GraphSnapshot) -> R>(solve: F) -> bool {
    forall|graph: SnapshotView, a: R, b: R| #[trigger]
        answered(solve, graph, a) && #[trigger] answered(solve, graph, b) ==> a == b
}

/// `render` writes a number with so many decimals in one way only.
pub open spec fn single_text<R: Fn(Binary64, usize) -> String>(render: R) -> bool {
    forall|number: Binary64, decimals: usize, a: String, b: String| #[trigger]
        call_ensures(render, (number, decimals), a) && #[trigger] call_ensures(
            render,
            (number, decimals),
            b,
        ) ==> a@ == b@
}

/// The text shows what the three solvers gave on a graph with this snapshot.
pub open spec fn indicates<E, F, C, M, R>(
    graph: SnapshotView,
    fiedler: F,
    cheeger: C,
    mixing_time: M,
    render: R,
    text: Seq<char>,
) -> bool where
    F: FnOnce(&GraphSnapshot) -> Result<Binary64, E>,
    C: FnOnce(&GraphSnapshot) -> Result<Binary64, E>,
    M: FnOnce(&GraphSnapshot) -> Option<Binary64>,
    R: Fn(Binary64, usize) -> String,
 {
    exists|readings: SpectralReadings|
        #[trigger] readings.taken(graph, fiedler, cheeger, mixing_time) && readings.shown_as(
            render,
            text,
        )
}

/// The number that stands for a reading; zero for a missing one.
pub open spec fn number_shown(reading: Option<Binary64>) -> Binary64 {
    match reading {
        Some(number) => number,
        None => crate::binary64::zero(),
    }
}

/// The text is how `render` writes the reading with so many decimals.
pub open spec fn shown<R: Fn(Binary64, usize) -> String>(
    render: R,
    reading: Option<Binary64>,
    decimals: usize,
    text: Seq<char>,
) -> bool {
    exists|s: String|
        s@ == text && #[trigger] call_ensures(render, (number_shown(reading), decimals), s)
}

/// The status bar text that shows three rendered readings.
pub open spec fn indicator_text(
    fiedler: Seq<char>,
    cheeger: Seq<char>,
    mixing_time: Seq<char>,
) -> Seq<char> {
    "λ₂="@ + fiedler + " h="@ + cheeger + " t="@ + mixing_time
}

impl SpectralReadings {
    /// The readings are what the three solvers gave on a graph with this snapshot.
    pub open spec fn taken<E, F, C, M>(
        self,
        graph: SnapshotView,
        fiedler: F,
        cheeger: C,
        mixing_time: M,
    ) -> bool where
        F: FnOnce(&GraphSnapshot) -> Result<Binary64, E>,
        C: FnOnce(&GraphSnapshot) -> Result<Binary64, E>,
        M: FnOnce(&GraphSnapshot) -> Option<Binary64>,
     {
        &&& measured(fiedler, graph, self.fiedler)
        &&& measured(cheeger, graph, self.cheeger)
        &&& answered(mixing_time, graph, self.mixing_time)
    }

    /// There are no readings.
    pub open spec fn absent(self) -> bool {
        self.fiedler is None && self.cheeger is None && self.mixing_time is None
    }

    /// The text shows the readings: two decimals of the Fiedler value and of the
    /// Cheeger constant, and the mixing time without decimals.
    pub open spec fn shown_as<R: Fn(Binary64, usize) -> String>(
        self,
        render: R,
        text: Seq<char>,
    ) -> bool {
        exists|fiedler: Seq<char>, cheeger: Seq<char>, mixing_time: Seq<char>|
            {
                &&& #[trigger] shown(render, self.fiedler, 2, fiedler)
                &&& #[trigger] shown(render, self.cheeger, 2, cheeger)
                &&& #[trigger] shown(render, self.mixing_time, 0, mixing_time)
                &&& text == indicator_text(fiedler, cheeger, mixing_time)
            }
    }

    /// The status bar text for these readings.
    ///
    /// Format: `λ₂=0.34 h=0.21 t=3`, where `render` writes a number with the
    /// number of decimals asked for.
    pub fn indicator<R: Fn(Binary64, usize) -> String>(&self, render: R) -> (r: String)
        requires
            forall|number: Binary64, decimals: usize|
                decimals == 2 || decimals == 0 ==> #[trigger] call_requires(
                    render,
                    (number, decimals),
                ),
        ensures
            self.shown_as(render, r@),
    {
        let zero = Binary64 { bits: ZERO_BITS };
        let fiedler = render(self.fiedler.unwrap_or(zero), 2);
        let cheeger = render(self.cheeger.unwrap_or(zero), 2);
        let mixing_time = render(self.mixing_time.unwrap_or(zero), 0);
        assert(shown(render, self.fiedler, 2, fiedler@));
        assert(shown(render, self.cheeger, 2, cheeger@));
        assert(shown(render, self.mixing_time, 0, mixing_time@));
        let mut text = "λ₂=".to_owned();
        text.append(fiedler.as_str());
        text.append(" h=");
        text.append(cheeger.as_str());
        text.append(" t=");
        text.append(mixing_time.as_str());
        assert(text@ == indicator_text(fiedler@, cheeger@, mixing_time@));
        text
    }
}

} // verus!
