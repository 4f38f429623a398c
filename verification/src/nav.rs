//! Navigating the current image listing: selection, single steps,
//! spread-aware steps, loop-at-boundary, and the render set of one or two
//! pages.
//!
//! The model holds the listing of the latest scan together with one
//! portrait flag per entry (the embedding program probes orientations and
//! fills them in). Every operation locates the current entry by path
//! equality against the listing, never by a cached index.
use vstd::prelude::*;
use crate::scan::ImageEntry;

verus! {

/// What a navigation step decided.
#[derive(Debug)]
pub enum NavOutcome {
    /// A new entry was selected; its path is to be rendered.
    Selected(String),
    /// Navigation ran off the end of the listing: the caller owns the move
    /// to the next container.
    RequestNextContainer,
    /// Navigation ran off the start of the listing: the caller owns the
    /// move to the previous container.
    RequestPrevContainer,
    /// Nothing happened (the path was not in the listing, or a single step
    /// hit the boundary).
    NoChange,
}

/// The outcome with its path abstracted to a character sequence.
pub enum NavOutcomeV {
    Selected(Seq<char>),
    RequestNextContainer,
    RequestPrevContainer,
    NoChange,
}

pub open spec fn nav_outcome_view(r: NavOutcome) -> NavOutcomeV {
    match r {
        NavOutcome::Selected(p) => NavOutcomeV::Selected(p@),
        NavOutcome::RequestNextContainer => NavOutcomeV::RequestNextContainer,
        NavOutcome::RequestPrevContainer => NavOutcomeV::RequestPrevContainer,
        NavOutcome::NoChange => NavOutcomeV::NoChange,
    }
}

/// The first index whose entry has the given path, if any.
pub open spec fn find_spec(s: Seq<ImageEntry>, path: Seq<char>) -> Option<int>
    decreases s.len(),
{
    if s.len() == 0 {
        None
    } else if s[0].path@ == path {
        Some(0)
    } else {
        match find_spec(s.drop_first(), path) {
            Some(i) => Some(i + 1),
            None => None,
        }
    }
}

pub proof fn lemma_find_first(s: Seq<ImageEntry>, path: Seq<char>)
    ensures
        match find_spec(s, path) {
            Some(i) => 0 <= i < s.len() && s[i].path@ == path && (forall|j: int|
                0 <= j < i ==> (#[trigger] s[j]).path@ != path),
            None => forall|j: int| 0 <= j < s.len() ==> (#[trigger] s[j]).path@ != path,
        },
    decreases s.len(),
{
    if s.len() > 0 && s[0].path@ != path {
        lemma_find_first(s.drop_first(), path);
        let t = s.drop_first();
        match find_spec(t, path) {
            Some(i) => {
                assert(s[i + 1] == t[i]);
                assert forall|j: int| 0 <= j < i + 1 implies (#[trigger] s[j]).path@ != path by {
                    if j > 0 {
                        assert(t[j - 1] == s[j]);
                    }
                }
            },
            None => {
                assert forall|j: int| 0 <= j < s.len() implies (#[trigger] s[j]).path@ != path by {
                    if j > 0 {
                        assert(t[j - 1] == s[j]);
                    }
                }
            },
        }
    }
}

/// The image listing under navigation, with the per-entry portrait flags,
/// the current selection, and the flags that shape movement.
#[derive(Debug)]
pub struct NavigationModel {
    pub images: Vec<ImageEntry>,
    pub portrait: Vec<bool>,
    pub selected: Option<String>,
    pub spread: bool,
    pub loop_images: bool,
    pub single_first_page: bool,
}

impl NavigationModel {
    /// One portrait flag per entry.
    pub open spec fn wf(self) -> bool {
        self.portrait@.len() == self.images@.len()
    }

    /// Everything but the selection is the same in both models.
    pub open spec fn same_but_selection(self, other: Self) -> bool {
        &&& self.images == other.images
        &&& self.portrait == other.portrait
        &&& self.spread == other.spread
        &&& self.loop_images == other.loop_images
        &&& self.single_first_page == other.single_first_page
    }

    /// The entry at `i` pairs with the one after it: spread view is on, the
    /// first-page override does not apply, and both are portrait.
    pub open spec fn pair_forward(self, i: int) -> bool {
        &&& self.spread
        &&& !(self.single_first_page && i == 0)
        &&& self.portrait@[i]
        &&& i + 1 < self.images@.len()
        &&& self.portrait@[i + 1]
    }

    /// Stepping back from `i` lands on the start of a pair: spread view is
    /// on and the two entries before `i` are both portrait.
    pub open spec fn pair_backward(self, i: int) -> bool {
        &&& self.spread
        &&& i >= 2
        &&& self.portrait@[i - 1]
        &&& self.portrait@[i - 2]
    }

    /// The paths to render for `path`: the path itself, and its partner
    /// when the pairing test holds at its index. A path outside the
    /// listing renders alone.
    pub open spec fn render_set_spec(self, path: Seq<char>) -> Seq<Seq<char>> {
        match find_spec(self.images@, path) {
            None => seq![path],
            Some(i) => if self.pair_forward(i) {
                seq![path, self.images@[i + 1].path@]
            } else {
                seq![path]
            },
        }
    }

    pub fn new(
        images: Vec<ImageEntry>,
        portrait: Vec<bool>,
        spread: bool,
        loop_images: bool,
        single_first_page: bool,
    ) -> (m: Self)
        requires
            images@.len() == portrait@.len(),
        ensures
            m.wf(),
            m.images == images,
            m.portrait == portrait,
            m.selected is None,
            m.spread == spread,
            m.loop_images == loop_images,
            m.single_first_page == single_first_page,
    {
        NavigationModel {
            images,
            portrait,
            selected: None,
            spread,
            loop_images,
            single_first_page,
        }
    }

    pub fn len(&self) -> (n: usize)
        ensures
            n == self.images@.len(),
    {
        self.images.len()
    }

    /// The path of the entry at `i`, for the caller to probe its
    /// orientation.
    pub fn path_at(&self, i: usize) -> (r: Option<String>)
        ensures
            match r {
                Some(p) => i < self.images@.len() && p == self.images@[i as int].path,
                None => i >= self.images@.len(),
            },
    {
        if i < self.images.len() {
            Some(self.images[i].path.clone())
        } else {
            None
        }
    }

    /// Records the probed orientation of the entry at `i`.
    pub fn set_orientation(&mut self, i: usize, portrait: bool)
        requires
            old(self).wf(),
            i < old(self).images@.len(),
        ensures
            final(self).wf(),
            final(self).portrait@ == old(self).portrait@.update(i as int, portrait),
            final(self).images == old(self).images,
            final(self).selected == old(self).selected,
            final(self).spread == old(self).spread,
            final(self).loop_images == old(self).loop_images,
            final(self).single_first_page == old(self).single_first_page,
    {
        self.portrait.set(i, portrait);
    }

    pub fn set_spread(&mut self, v: bool)
        ensures
            *final(self) == (NavigationModel { spread: v, ..*old(self) }),
    {
        self.spread = v;
    }

    pub fn set_loop_images(&mut self, v: bool)
        ensures
            *final(self) == (NavigationModel { loop_images: v, ..*old(self) }),
    {
        self.loop_images = v;
    }

    pub fn set_single_first_page(&mut self, v: bool)
        ensures
            *final(self) == (NavigationModel { single_first_page: v, ..*old(self) }),
    {
        self.single_first_page = v;
    }

    /// Selects `path` outright (a click in the list).
    pub fn select(&mut self, path: String)
        ensures
            final(self).selected == Some(path),
            final(self).same_but_selection(*old(self)),
    {
        self.selected = Some(path);
    }

    /// The first index whose entry has this path.
    pub fn find_index(&self, path: &String) -> (r: Option<usize>)
        ensures
            match r {
                Some(i) => find_spec(self.images@, path@) == Some(i as int),
                None => find_spec(self.images@, path@) is None,
            },
    {
        let n = self.images.len();
        let mut i: usize = 0;
        while i < n
            invariant
                i <= n,
                n == self.images@.len(),
                forall|j: int| 0 <= j < i ==> (#[trigger] self.images@[j]).path@ != path@,
            decreases n - i,
        {
            if self.images[i].path == *path {
                proof {
                    lemma_find_first(self.images@, path@);
                    if find_spec(self.images@, path@) is None {
                        assert(false);
                    }
                    let f = find_spec(self.images@, path@)->0;
                    assert(self.images@[f].path@ == path@);
                }
                return Some(i);
            }
            i = i + 1;
        }
        proof {
            lemma_find_first(self.images@, path@);
            if find_spec(self.images@, path@) is Some {
                let f = find_spec(self.images@, path@)->0;
                assert(self.images@[f].path@ == path@);
            }
        }
        None
    }

    /// The one or two paths to render for `path` (spread pairing looks one
    /// step ahead from the entry's own index).
    pub fn resolve_render_set(&self, path: &String) -> (r: Vec<String>)
        requires
            self.wf(),
        ensures
            r@.map_values(|s: String| s@) == self.render_set_spec(path@),
    {
        let mut out: Vec<String> = Vec::new();
        out.push(path.clone());
        match self.find_index(path) {
            None => {
                proof {
                    assert(out@.map_values(|s: String| s@) =~= seq![path@]);
                }
                out
            },
            Some(i) => {
                proof {
                    lemma_find_first(self.images@, path@);
                }
                let mut pair = false;
                if self.spread && !(self.single_first_page && i == 0) {
                    if self.portrait[i] && i < self.images.len() - 1 {
                        if self.portrait[i + 1] {
                            pair = true;
                        }
                    }
                }
                if pair {
                    out.push(self.images[i + 1].path.clone());
                    proof {
                        assert(out@.map_values(|s: String| s@) =~= seq![
                            path@,
                            self.images@[i as int + 1].path@,
                        ]);
                    }
                } else {
                    proof {
                        assert(out@.map_values(|s: String| s@) =~= seq![path@]);
                    }
                }
                out
            },
        }
    }

    /// Steps forward from `path`: over the whole pair when the pairing test
    /// holds, else one entry; past the end it wraps to the first entry when
    /// looping, and otherwise asks for the next container.
    pub fn next(&mut self, path: &String) -> (r: NavOutcome)
        requires
            old(self).wf(),
        ensures
            final(self).wf(),
            final(self).same_but_selection(*old(self)),
            ({
                let imgs = old(self).images@;
                match find_spec(imgs, path@) {
                    None => nav_outcome_view(r) is NoChange && final(self).selected == old(
                        self,
                    ).selected,
                    Some(i) => {
                        let jump: int = if old(self).pair_forward(i) {
                            2
                        } else {
                            1
                        };
                        if i + jump < imgs.len() {
                            &&& nav_outcome_view(r) == NavOutcomeV::Selected(
                                imgs[i + jump].path@,
                            )
                            &&& final(self).selected matches Some(p) && p@ == imgs[i
                                + jump].path@
                        } else if old(self).loop_images {
                            &&& nav_outcome_view(r) == NavOutcomeV::Selected(imgs[0].path@)
                            &&& final(self).selected matches Some(p) && p@ == imgs[0].path@
                        } else {
                            &&& nav_outcome_view(r) is RequestNextContainer
                            &&& final(self).selected == old(self).selected
                        }
                    },
                }
            }),
    {
        match self.find_index(path) {
            None => NavOutcome::NoChange,
            Some(i) => {
                proof {
                    lemma_find_first(self.images@, path@);
                }
                let mut jump: usize = 1;
                if self.spread && !(self.single_first_page && i == 0) {
                    if self.portrait[i] && i < self.images.len() - 1 {
                        if self.portrait[i + 1] {
                            jump = 2;
                        }
                    }
                }
                let n = self.images.len();
                if jump < n - i {
                    let target = self.images[i + jump].path.clone();
                    self.selected = Some(target.clone());
                    NavOutcome::Selected(target)
                } else if self.loop_images {
                    let target = self.images[0].path.clone();
                    self.selected = Some(target.clone());
                    NavOutcome::Selected(target)
                } else {
                    NavOutcome::RequestNextContainer
                }
            },
        }
    }

    /// Steps backward from `path`: to the start of the pair two entries
    /// back when the backward pairing test holds, else one entry; at the
    /// start it wraps to the last entry when looping, and otherwise asks
    /// for the previous container.
    pub fn prev(&mut self, path: &String) -> (r: NavOutcome)
        requires
            old(self).wf(),
        ensures
            final(self).wf(),
            final(self).same_but_selection(*old(self)),
            ({
                let imgs = old(self).images@;
                match find_spec(imgs, path@) {
                    None => nav_outcome_view(r) is NoChange && final(self).selected == old(
                        self,
                    ).selected,
                    Some(i) => {
                        if i > 0 {
                            let t: int = if old(self).pair_backward(i) {
                                i - 2
                            } else {
                                i - 1
                            };
                            &&& nav_outcome_view(r) == NavOutcomeV::Selected(imgs[t].path@)
                            &&& final(self).selected matches Some(p) && p@ == imgs[t].path@
                        } else if old(self).loop_images {
                            &&& nav_outcome_view(r) == NavOutcomeV::Selected(
                                imgs[imgs.len() - 1].path@,
                            )
                            &&& final(self).selected matches Some(p) && p@ == imgs[imgs.len()
                                - 1].path@
                        } else {
                            &&& nav_outcome_view(r) is RequestPrevContainer
                            &&& final(self).selected == old(self).selected
                        }
                    },
                }
            }),
    {
        match self.find_index(path) {
            None => NavOutcome::NoChange,
            Some(i) => {
                proof {
                    lemma_find_first(self.images@, path@);
                }
                if i > 0 {
                    let mut target_idx = i - 1;
                    if self.spread && i >= 2 {
                        if self.portrait[i - 1] && self.portrait[i - 2] {
                            target_idx = i - 2;
                        }
                    }
                    let target = self.images[target_idx].path.clone();
                    self.selected = Some(target.clone());
                    NavOutcome::Selected(target)
                } else if self.loop_images {
                    let target = self.images[self.images.len() - 1].path.clone();
                    self.selected = Some(target.clone());
                    NavOutcome::Selected(target)
                } else {
                    NavOutcome::RequestPrevContainer
                }
            },
        }
    }

    /// Steps exactly one entry forward, whatever the spread mode: the
    /// escape hatch to move inside a pair. Never loops and never signals;
    /// at the end it does nothing.
    pub fn next_single(&mut self, path: &String) -> (r: NavOutcome)
        requires
            old(self).wf(),
        ensures
            final(self).wf(),
            final(self).same_but_selection(*old(self)),
            ({
                let imgs = old(self).images@;
                match find_spec(imgs, path@) {
                    None => nav_outcome_view(r) is NoChange && final(self).selected == old(
                        self,
                    ).selected,
                    Some(i) => if i + 1 < imgs.len() {
                        &&& nav_outcome_view(r) == NavOutcomeV::Selected(imgs[i + 1].path@)
                        &&& final(self).selected matches Some(p) && p@ == imgs[i + 1].path@
                    } else {
                        nav_outcome_view(r) is NoChange && final(self).selected == old(
                            self,
                        ).selected
                    },
                }
            }),
    {
        match self.find_index(path) {
            None => NavOutcome::NoChange,
            Some(i) => {
                proof {
                    lemma_find_first(self.images@, path@);
                }
                if i < self.images.len() - 1 {
                    let target = self.images[i + 1].path.clone();
                    self.selected = Some(target.clone());
                    NavOutcome::Selected(target)
                } else {
                    NavOutcome::NoChange
                }
            },
        }
    }

    /// Steps exactly one entry backward, whatever the spread mode. Never
    /// loops and never signals; at the start it does nothing.
    pub fn prev_single(&mut self, path: &String) -> (r: NavOutcome)
        requires
            old(self).wf(),
        ensures
            final(self).wf(),
            final(self).same_but_selection(*old(self)),
            ({
                let imgs = old(self).images@;
                match find_spec(imgs, path@) {
                    None => nav_outcome_view(r) is NoChange && final(self).selected == old(
                        self,
                    ).selected,
                    Some(i) => if i > 0 {
                        &&& nav_outcome_view(r) == NavOutcomeV::Selected(imgs[i - 1].path@)
                        &&& final(self).selected matches Some(p) && p@ == imgs[i - 1].path@
                    } else {
                        nav_outcome_view(r) is NoChange && final(self).selected == old(
                            self,
                        ).selected
                    },
                }
            }),
    {
        match self.find_index(path) {
            None => NavOutcome::NoChange,
            Some(i) => {
                proof {
                    lemma_find_first(self.images@, path@);
                }
                if i > 0 {
                    let target = self.images[i - 1].path.clone();
                    self.selected = Some(target.clone());
                    NavOutcome::Selected(target)
                } else {
                    NavOutcome::NoChange
                }
            },
        }
    }

    /// Selects the first entry, if the listing has one.
    pub fn select_first(&mut self) -> (r: NavOutcome)
        requires
            old(self).wf(),
        ensures
            final(self).wf(),
            final(self).same_but_selection(*old(self)),
            ({
                let imgs = old(self).images@;
                if imgs.len() > 0 {
                    &&& nav_outcome_view(r) == NavOutcomeV::Selected(imgs[0].path@)
                    &&& final(self).selected matches Some(p) && p@ == imgs[0].path@
                } else {
                    nav_outcome_view(r) is NoChange && final(self).selected == old(self).selected
                }
            }),
    {
        if self.images.len() > 0 {
            let target = self.images[0].path.clone();
            self.selected = Some(target.clone());
            NavOutcome::Selected(target)
        } else {
            NavOutcome::NoChange
        }
    }
}

/// Rendering and stepping agree on pairing: the render set for a listed
/// path holds two pages exactly when the forward pairing test holds at its
/// index — the same test `next` uses to step over the whole pair — and a
/// path outside the listing always renders alone.
pub proof fn lemma_render_set_matches_forward_pairing(m: NavigationModel, path: Seq<char>)
    requires
        m.wf(),
    ensures
        match find_spec(m.images@, path) {
            Some(i) => (m.render_set_spec(path).len() == 2 <==> m.pair_forward(i))
                && (m.render_set_spec(path).len() == 1 <==> !m.pair_forward(i)),
            None => m.render_set_spec(path).len() == 1,
        },
{
}

} // verus!
