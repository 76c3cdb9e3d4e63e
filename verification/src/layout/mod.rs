use vstd::prelude::*;

pub mod grid;
pub mod master;
pub mod monocle;



pub use grid::GridLayout;
pub use master::MasterLayout;
pub use monocle::MonocleLayout;

use crate::state::window::{Rect, WindowId};
use crate::text::str_equal;
use vstd::string::*;

verus! {

/// Parameters guiding dynamic layout geometry calculation.
#[derive(Debug, Clone, Copy, PartialEq, Eq, Structural)]
pub struct LayoutConfig {
    /// Gap in pixels between windows and screen edges.
    pub gap: u32,
    /// Share of the width assigned to the master window, in ten-thousandths
    /// (5500 means 0.55); layouts clamp it to 1000..=9000.
    pub master_ratio: u32,
    /// Number of master windows (typically 1).
    pub master_count: u32,
}

impl LayoutConfig {
    /// The default settings: an 8 pixel gap, a 0.55 master share and one master window.
    pub open spec fn default_spec() -> LayoutConfig {
        LayoutConfig { gap: 8, master_ratio: 5500, master_count: 1 }
    }
}

impl Default for LayoutConfig {
    fn default() -> (c: LayoutConfig)
        ensures
            c == LayoutConfig::default_spec(),
    {
        LayoutConfig { gap: 8, master_ratio: 5500, master_count: 1 }
    }
}

/// The gap as a signed compositor coordinate (`gap as i32`).
pub open spec fn gap_of(cfg: LayoutConfig) -> int {
    (cfg.gap as i32) as int
}

/// Width of an area as a signed coordinate (`width as i32`).
pub open spec fn signed(v: u32) -> int {
    (v as i32) as int
}

pub open spec fn in_i32(v: int) -> bool {
    i32::MIN <= v <= i32::MAX
}

/// Whether `v` is a value of `i32`.
pub fn fits_i32(v: i128) -> (r: bool)
    ensures
        r == in_i32(v as int),
{
    -2147483648 <= v && v <= 2147483647
}

/// `max(v, 1)`.
pub open spec fn at_least_one(v: int) -> int {
    if v < 1 {
        1
    } else {
        v
    }
}

/// Division rounding toward zero, as Rust's integer `/` does (`b > 0`).
pub open spec fn trunc_div(a: int, b: int) -> int {
    if a >= 0 {
        a / b
    } else {
        -((-a) / b)
    }
}

/// The built-in layout algorithms.
#[derive(Debug, Clone, Copy, PartialEq, Eq, Structural)]
pub enum LayoutKind {
    Master,
    Monocle,
    Grid,
}

/// The name a built-in layout registers under.
pub open spec fn kind_name(kind: LayoutKind) -> Seq<char> {
    match kind {
        LayoutKind::Master => "master"@,
        LayoutKind::Monocle => "monocle"@,
        LayoutKind::Grid => "grid"@,
    }
}

/// The signed arithmetic of `kind`'s arrangement of n windows stays within `i32`.
pub open spec fn layout_fits(kind: LayoutKind, n: nat, area: Rect, cfg: LayoutConfig) -> bool {
    match kind {
        LayoutKind::Master => master::master_fits(n as int, area, cfg),
        LayoutKind::Monocle => n > 0 ==> monocle::monocle_fits(area, cfg),
        LayoutKind::Grid => grid::grid_fits(n, area, cfg),
    }
}

/// The rectangle `kind` gives the i-th of n windows.
pub open spec fn layout_rect(kind: LayoutKind, i: int, n: nat, area: Rect, cfg: LayoutConfig) -> Rect {
    match kind {
        LayoutKind::Master => master::master_rect(i, n as int, area, cfg),
        LayoutKind::Monocle => monocle::monocle_rect(area, cfg),
        LayoutKind::Grid => grid::grid_rect(i, n, area, cfg),
    }
}

/// The arrangement `kind` computes: each window paired with its rectangle, in order.
pub open spec fn arrangement(kind: LayoutKind, ids: Seq<WindowId>, area: Rect, cfg: LayoutConfig) -> Seq<(WindowId, Rect)> {
    Seq::new(ids.len(), |i: int| (ids[i], layout_rect(kind, i, ids.len(), area, cfg)))
}

impl LayoutKind {
    /// Whether the signed arithmetic of arranging `n` windows in `area` stays within `i32`
    /// (the precondition of `arrange`).
    pub fn fits(&self, n: usize, area: Rect, config: &LayoutConfig) -> (r: bool)
        ensures
            r == layout_fits(*self, n as nat, area, *config),
    {
        match self {
            LayoutKind::Master => master::master_fits_check(n, area, config),
            LayoutKind::Monocle => n == 0 || monocle::monocle_fits_check(area, config),
            LayoutKind::Grid => grid::grid_fits_check(n, area, config),
        }
    }

    /// The layout's registered name.
    pub fn name(&self) -> (r: &'static str)
        ensures
            r@ == kind_name(*self),
    {
        match self {
            LayoutKind::Master => MasterLayout.name(),
            LayoutKind::Monocle => MonocleLayout.name(),
            LayoutKind::Grid => GridLayout.name(),
        }
    }

    /// Calculate geometries for the given windows in order.
    pub fn arrange(&self, windows: &[WindowId], usable_area: Rect, config: &LayoutConfig) -> (r:
        Vec<(WindowId, Rect)>)
        requires
            layout_fits(*self, windows@.len(), usable_area, *config),
        ensures
            r@ == arrangement(*self, windows@, usable_area, *config),
    {
        let r = match self {
            LayoutKind::Master => MasterLayout.arrange(windows, usable_area, config),
            LayoutKind::Monocle => MonocleLayout.arrange(windows, usable_area, config),
            LayoutKind::Grid => GridLayout.arrange(windows, usable_area, config),
        };
        assert(r@ =~= arrangement(*self, windows@, usable_area, *config));
        r
    }
}

/// A layout algorithm supplied by a user of the library (a plugin, a script): it names itself
/// and computes the geometry of the given windows, in order, inside the usable area.
pub trait Layout {
    /// Name of the layout (e.g. "spiral", "plugin:columns").
    fn name(&self) -> &str;

    /// Calculate geometries for the given windows in order.
    fn arrange(&self, windows: &[WindowId], usable_area: Rect, config: &LayoutConfig) -> Vec<(WindowId, Rect)>;
}

/// A layout whose geometry a function computes, for extending the compositor at run time.
pub struct CustomLayout<F> where F: Fn(&[WindowId], Rect, &LayoutConfig) -> Vec<(WindowId, Rect)> {
    name: String,
    arranger: F,
}

impl<F> CustomLayout<F> where F: Fn(&[WindowId], Rect, &LayoutConfig) -> Vec<(WindowId, Rect)> {
    /// The arranger can be called on every input.
    #[verifier::type_invariant]
    closed spec fn callable_everywhere(self) -> bool {
        forall|w: &[WindowId], a: Rect, c: &LayoutConfig| #[trigger] call_requires(self.arranger, (w, a, c))
    }

    /// The function that computes the geometry.
    pub closed spec fn arranger(self) -> F {
        self.arranger
    }

    /// The layout's name.
    pub closed spec fn name_view(self) -> Seq<char> {
        self.name@
    }

    /// A layout named `name` whose geometry `arranger` computes.
    pub fn new(name: String, arranger: F) -> (r: Self)
        requires
            forall|w: &[WindowId], a: Rect, c: &LayoutConfig| #[trigger] call_requires(arranger, (w, a, c)),
        ensures
            r.name_view() == name@,
            r.arranger() == arranger,
    {
        CustomLayout { name, arranger }
    }
}

impl<F> Layout for CustomLayout<F> where F: Fn(&[WindowId], Rect, &LayoutConfig) -> Vec<(WindowId, Rect)> {
    fn name(&self) -> (r: &str)
        ensures
            r@ == self.name_view(),
    {
        self.name.as_str()
    }

    fn arrange(&self, windows: &[WindowId], usable_area: Rect, config: &LayoutConfig) -> (r: Vec<(WindowId, Rect)>)
        ensures
            call_ensures(self.arranger(), (windows, usable_area, config), r),
    {
        proof {
            use_type_invariant(self);
        }
        (self.arranger)(windows, usable_area, config)
    }
}

/// The names registered in a list of user-supplied layouts.
pub open spec fn custom_name_set(entries: Seq<String>) -> Set<Seq<char>> {
    Set::new(|n: Seq<char>| exists|i: int| 0 <= i < entries.len() && #[trigger] entries[i]@ == n)
}

pub open spec fn custom_names_unique(entries: Seq<String>) -> bool {
    forall|i: int, j: int|
        0 <= i < j < entries.len() ==> #[trigger] entries[i]@ != #[trigger] entries[j]@
}

/// The name-to-layout map a list of registrations describes (later entries win).
pub open spec fn entries_map(entries: Seq<(String, LayoutKind)>) -> Map<Seq<char>, LayoutKind>
    decreases entries.len(),
{
    if entries.len() == 0 {
        Map::empty()
    } else {
        entries_map(entries.drop_last()).insert(entries.last().0@, entries.last().1)
    }
}

pub open spec fn names_unique(entries: Seq<(String, LayoutKind)>) -> bool {
    forall|i: int, j: int|
        0 <= i < j < entries.len() ==> #[trigger] entries[i].0@ != #[trigger] entries[j].0@
}

proof fn lemma_entries_map(entries: Seq<(String, LayoutKind)>)
    requires
        names_unique(entries),
    ensures
        forall|n: Seq<char>|
            #[trigger] entries_map(entries).contains_key(n) <==> exists|i: int|
                0 <= i < entries.len() && entries[i].0@ == n,
        forall|i: int|
            0 <= i < entries.len() ==> #[trigger] entries_map(entries)[entries[i].0@]
                == entries[i].1,
    decreases entries.len(),
{
    if entries.len() > 0 {
        let rest = entries.drop_last();
        lemma_entries_map(rest);
        assert forall|n: Seq<char>|
            #[trigger] entries_map(entries).contains_key(n) <==> exists|i: int|
                0 <= i < entries.len() && entries[i].0@ == n by {
            assert(entries_map(entries) == entries_map(rest).insert(entries.last().0@, entries.last().1));
            if entries_map(entries).contains_key(n) {
                if n != entries.last().0@ {
                    assert(entries_map(rest).contains_key(n));
                    let i = choose|i: int| 0 <= i < rest.len() && rest[i].0@ == n;
                    assert(entries[i].0@ == n);
                } else {
                    assert(entries[entries.len() - 1].0@ == n);
                }
            }
            if exists|i: int| 0 <= i < entries.len() && entries[i].0@ == n {
                let i = choose|i: int| 0 <= i < entries.len() && entries[i].0@ == n;
                if i < entries.len() - 1 {
                    assert(rest[i].0@ == n);
                    assert(entries_map(rest).contains_key(n));
                }
            }
        }
        assert forall|i: int| 0 <= i < entries.len() implies #[trigger] entries_map(
            entries,
        )[entries[i].0@] == entries[i].1 by {
            assert(entries_map(entries) == entries_map(rest).insert(entries.last().0@, entries.last().1));
            if i < entries.len() - 1 {
                assert(rest[i] == entries[i]);
                assert(entries[i].0@ != entries[entries.len() - 1].0@);
                assert(entries_map(rest)[rest[i].0@] == rest[i].1);
            }
        }
    }
}

/// Registry mapping layout names to the built-in layout algorithms and to layouts that users
/// of the library supplied.
pub struct LayoutRegistry {
    layouts: Vec<(String, LayoutKind)>,
    user: UserLayouts,
}

/// The user-supplied layouts of a registry: each name beside its layout.
struct UserLayouts {
    names: Vec<String>,
    layouts: Vec<Box<dyn Layout>>,
}

impl View for LayoutRegistry {
    type V = Map<Seq<char>, LayoutKind>;

    closed spec fn view(&self) -> Map<Seq<char>, LayoutKind> {
        entries_map(self.layouts@)
    }
}

impl LayoutRegistry {
    #[verifier::type_invariant]
    closed spec fn inv(self) -> bool {
        &&& names_unique(self.layouts@)
        &&& custom_names_unique(self.user.names@)
        &&& self.user.names@.len() == self.user.layouts@.len()
        &&& forall|i: int| 0 <= i < self.user.names@.len() ==> !entries_map(self.layouts@).contains_key(
            #[trigger] self.user.names@[i]@,
        )
    }

    /// The names under which user-supplied layouts are registered (none of them names a
    /// built-in registration).
    pub closed spec fn custom_names(&self) -> Set<Seq<char>> {
        custom_name_set(self.user.names@)
    }

    /// Whether some layout is registered under `name`.
    pub open spec fn knows(&self, name: Seq<char>) -> bool {
        self@.contains_key(name) || self.custom_names().contains(name)
    }

    /// A registry without layouts.
    pub fn empty() -> (r: LayoutRegistry)
        ensures
            r@ == Map::<Seq<char>, LayoutKind>::empty(),
            r.custom_names() == Set::<Seq<char>>::empty(),
    {
        let r = LayoutRegistry { layouts: Vec::new(), user: UserLayouts { names: Vec::new(), layouts: Vec::new() } };
        assert(r.custom_names() =~= Set::<Seq<char>>::empty());
        r
    }

    /// The built-in layouts under their names.
    pub open spec fn builtin_map() -> Map<Seq<char>, LayoutKind> {
        Map::<Seq<char>, LayoutKind>::empty().insert("master"@, LayoutKind::Master).insert(
            "monocle"@,
            LayoutKind::Monocle,
        ).insert("grid"@, LayoutKind::Grid)
    }

    /// A registry holding the built-in master, monocle and grid layouts.
    pub fn new() -> (r: LayoutRegistry)
        ensures
            r@ == LayoutRegistry::builtin_map(),
            r.custom_names() == Set::<Seq<char>>::empty(),
    {
        let mut registry = LayoutRegistry::empty();
        registry.register(String::from_str(LayoutKind::Master.name()), LayoutKind::Master);
        registry.register(String::from_str(LayoutKind::Monocle.name()), LayoutKind::Monocle);
        registry.register(String::from_str(LayoutKind::Grid.name()), LayoutKind::Grid);
        registry
    }

    fn find(&self, name: &str) -> (r: Option<usize>)
        ensures
            match r {
                Some(i) => i < self.layouts@.len() && self.layouts@[i as int].0@ == name@,
                None => forall|i: int| 0 <= i < self.layouts@.len() ==> self.layouts@[i].0@ != name@,
            },
    {
        let mut i: usize = 0;
        while i < self.layouts.len()
            invariant
                i <= self.layouts@.len(),
                forall|j: int| 0 <= j < i ==> self.layouts@[j].0@ != name@,
            decreases self.layouts.len() - i,
        {
            if str_equal(self.layouts[i].0.as_str(), name) {
                return Some(i);
            }
            i = i + 1;
        }
        None
    }

    /// Registers `kind` under `name`, replacing an earlier registration of that name.
    pub fn register(&mut self, name: String, kind: LayoutKind)
        ensures
            final(self)@ == old(self)@.insert(name@, kind),
            final(self).custom_names() == old(self).custom_names().remove(name@),
    {
        proof {
            use_type_invariant(&*self);
        }
        match self.find_custom(name.as_str()) {
            Some(i) => self.remove_custom_at(i),
            None => {
                assert(self.custom_names() =~= old(self).custom_names().remove(name@));
            },
        }
        self.insert_builtin(name, kind);
    }

    /// Registers `kind` under `name`, which names no user-supplied layout.
    fn insert_builtin(&mut self, name: String, kind: LayoutKind)
        requires
            !old(self).custom_names().contains(name@),
        ensures
            final(self)@ == old(self)@.insert(name@, kind),
            final(self).user.names@ == old(self).user.names@,
    {
        proof {
            use_type_invariant(&*self);
            lemma_entries_map(self.layouts@);
        }
        let ghost old_entries = self.layouts@;
        let ghost cs = self.user.names@;
        match self.find(name.as_str()) {
            Some(i) => {
                let ghost n = name@;
                let mut layouts: Vec<(String, LayoutKind)> = Vec::new();
                std::mem::swap(&mut layouts, &mut self.layouts);
                layouts.set(i, (name, kind));
                proof {
                    assert forall|a: int, b: int|
                        0 <= a < b < layouts@.len() implies #[trigger] layouts@[a].0@
                        != #[trigger] layouts@[b].0@ by {
                        assert(old_entries[a].0@ != old_entries[b].0@);
                    }
                    lemma_entries_map(layouts@);
                    assert forall|k: Seq<char>|
                        #[trigger] entries_map(layouts@).contains_key(k)
                            == old_entries_map_insert(old_entries, n, kind).contains_key(k) by {
                        if exists|j: int| 0 <= j < old_entries.len() && old_entries[j].0@ == k {
                            let j = choose|j: int| 0 <= j < old_entries.len() && old_entries[j].0@ == k;
                            if j != i {
                                assert(layouts@[j].0@ == k);
                            }
                        }
                        if exists|j: int| 0 <= j < layouts@.len() && layouts@[j].0@ == k {
                            let j = choose|j: int| 0 <= j < layouts@.len() && layouts@[j].0@ == k;
                            if j != i {
                                assert(old_entries[j].0@ == k);
                            }
                        }
                    }
                    assert forall|k: Seq<char>| #[trigger] entries_map(layouts@).contains_key(k)
                        implies entries_map(layouts@)[k] == old_entries_map_insert(old_entries, n, kind)[k] by {
                        let j = choose|j: int| 0 <= j < layouts@.len() && layouts@[j].0@ == k;
                        assert(entries_map(layouts@)[layouts@[j].0@] == layouts@[j].1);
                        if j != i {
                            assert(old_entries[j] == layouts@[j]);
                            assert(entries_map(old_entries)[old_entries[j].0@] == old_entries[j].1);
                        }
                    }
                    assert(entries_map(layouts@) =~= old_entries_map_insert(old_entries, n, kind));
                    assert forall|j: int| 0 <= j < cs.len() implies !entries_map(layouts@).contains_key(
                        #[trigger] cs[j]@,
                    ) by {
                        assert(custom_name_set(cs).contains(cs[j]@));
                    }
                }
                self.layouts = layouts;
            },
            None => {
                let ghost n = name@;
                let mut layouts: Vec<(String, LayoutKind)> = Vec::new();
                std::mem::swap(&mut layouts, &mut self.layouts);
                layouts.push((name, kind));
                proof {
                    assert(layouts@.drop_last() =~= old_entries);
                    assert forall|a: int, b: int|
                        0 <= a < b < layouts@.len() implies #[trigger] layouts@[a].0@
                        != #[trigger] layouts@[b].0@ by {
                        if b == layouts@.len() - 1 {
                            assert(old_entries[a].0@ != n);
                        } else {
                            assert(old_entries[a].0@ != old_entries[b].0@);
                        }
                    }
                    assert(entries_map(layouts@) == entries_map(old_entries).insert(n, kind));
                    assert forall|j: int| 0 <= j < cs.len() implies !entries_map(layouts@).contains_key(
                        #[trigger] cs[j]@,
                    ) by {
                        assert(custom_name_set(cs).contains(cs[j]@));
                    }
                }
                self.layouts = layouts;
            },
        }
    }

    fn find_custom(&self, name: &str) -> (r: Option<usize>)
        ensures
            match r {
                Some(i) => i < self.user.names@.len() && self.user.names@[i as int]@ == name@,
                None => !self.custom_names().contains(name@),
            },
    {
        find_name(&self.user.names, name)
    }

    /// Drops the user-supplied layout at `i`.
    fn remove_custom_at(&mut self, i: usize)
        requires
            i < old(self).user.names@.len(),
        ensures
            final(self)@ == old(self)@,
            final(self).layouts@ == old(self).layouts@,
            final(self).custom_names() == old(self).custom_names().remove(old(self).user.names@[i as int]@),
    {
        proof {
            use_type_invariant(&*self);
        }
        let ghost c0 = self.user.names@;
        let mut user = UserLayouts { names: Vec::new(), layouts: Vec::new() };
        std::mem::swap(&mut user, &mut self.user);
        let UserLayouts { names: mut c, layouts: mut u } = user;
        let _name = c.remove(i);
        let _dropped = remove_item(&mut u, i);
        proof {
            lemma_custom_remove(c0, i as int);
            assert forall|j: int| 0 <= j < c@.len() implies !entries_map(self.layouts@).contains_key(
                #[trigger] c@[j]@,
            ) by {
                c0.remove_ensures(i as int);
                if j < i {
                    assert(c@[j] == c0[j]);
                } else {
                    assert(c@[j] == c0[j + 1]);
                }
            }
        }
        self.user = UserLayouts { names: c, layouts: u };
    }

    /// Drops the built-in registration at `i`.
    fn remove_builtin_at(&mut self, i: usize)
        requires
            i < old(self).layouts@.len(),
        ensures
            final(self)@ == old(self)@.remove(old(self).layouts@[i as int].0@),
            final(self).user.names@ == old(self).user.names@,
    {
        proof {
            use_type_invariant(&*self);
        }
        let ghost l0 = self.layouts@;
        let mut l: Vec<(String, LayoutKind)> = Vec::new();
        std::mem::swap(&mut l, &mut self.layouts);
        l.remove(i);
        proof {
            lemma_entries_remove(l0, i as int);
            assert forall|j: int| 0 <= j < self.user.names@.len() implies !entries_map(l@).contains_key(
                #[trigger] self.user.names@[j]@,
            ) by {
                assert(!entries_map(l0).contains_key(self.user.names@[j]@));
            }
        }
        self.layouts = l;
    }

    /// Registers the user-supplied `layout` under `name`, replacing an earlier registration of
    /// that name.
    pub fn register_custom(&mut self, name: String, layout: Box<dyn Layout>)
        ensures
            final(self)@ == old(self)@.remove(name@),
            final(self).custom_names() == old(self).custom_names().insert(name@),
    {
        proof {
            use_type_invariant(&*self);
            lemma_entries_map(self.layouts@);
        }
        match self.find(name.as_str()) {
            Some(i) => self.remove_builtin_at(i),
            None => {
                assert(self@ =~= old(self)@.remove(name@));
            },
        }
        proof {
            use_type_invariant(&*self);
            lemma_entries_map(self.layouts@);
        }
        let ghost n = name@;
        let ghost c0 = self.user.names@;
        assert(!self@.contains_key(n));
        let mut user = UserLayouts { names: Vec::new(), layouts: Vec::new() };
        std::mem::swap(&mut user, &mut self.user);
        let UserLayouts { names: mut c, layouts: mut u } = user;
        assert(u@.len() == c@.len());
        match find_name(&c, name.as_str()) {
            Some(i) => {
                c.set(i, name);
                set_item(&mut u, i, layout);
                proof {
                    assert forall|a: int, b: int| 0 <= a < b < c@.len() implies #[trigger] c@[a]@
                        != #[trigger] c@[b]@ by {
                        assert(c0[a]@ != c0[b]@);
                    }
                    assert forall|k: Seq<char>| custom_name_set(c@).contains(k) == custom_name_set(c0).insert(n).contains(k) by {
                        if custom_name_set(c0).contains(k) {
                            let j = choose|j: int| 0 <= j < c0.len() && #[trigger] c0[j]@ == k;
                            assert(c@[j]@ == k);
                        }
                        if custom_name_set(c@).contains(k) {
                            let j = choose|j: int| 0 <= j < c@.len() && #[trigger] c@[j]@ == k;
                            assert(c0[j]@ == k);
                        }
                        if k == n {
                            assert(c@[i as int]@ == k);
                        }
                    }
                    assert(custom_name_set(c@) =~= custom_name_set(c0).insert(n));
                    assert forall|j: int| 0 <= j < c@.len() implies !entries_map(self.layouts@).contains_key(
                        #[trigger] c@[j]@,
                    ) by {
                        if j != i {
                            assert(c@[j] == c0[j]);
                        }
                    }
                }
            },
            None => {
                c.push(name);
                push_item(&mut u, layout);
                proof {
                    assert forall|a: int, b: int| 0 <= a < b < c@.len() implies #[trigger] c@[a]@
                        != #[trigger] c@[b]@ by {
                        if b < c0.len() {
                            assert(c0[a]@ != c0[b]@);
                        } else {
                            assert(c@[a] == c0[a]);
                            assert(custom_name_set(c0).contains(c0[a]@));
                        }
                    }
                    assert forall|k: Seq<char>| custom_name_set(c@).contains(k) == custom_name_set(c0).insert(n).contains(k) by {
                        if custom_name_set(c0).contains(k) {
                            let j = choose|j: int| 0 <= j < c0.len() && #[trigger] c0[j]@ == k;
                            assert(c@[j]@ == k);
                        }
                        if custom_name_set(c@).contains(k) {
                            let j = choose|j: int| 0 <= j < c@.len() && #[trigger] c@[j]@ == k;
                            if j < c0.len() {
                                assert(c0[j]@ == k);
                            }
                        }
                        if k == n {
                            assert(c@[c0.len() as int]@ == k);
                        }
                    }
                    assert(custom_name_set(c@) =~= custom_name_set(c0).insert(n));
                    assert forall|j: int| 0 <= j < c@.len() implies !entries_map(self.layouts@).contains_key(
                        #[trigger] c@[j]@,
                    ) by {
                        if j < c0.len() {
                            assert(c@[j] == c0[j]);
                        }
                    }
                }
            },
        }
        self.user = UserLayouts { names: c, layouts: u };
    }

    /// Registers, under `name`, a layout whose geometry `func` computes; `func` must accept
    /// every input.
    pub fn register_fn<F>(&mut self, name: String, func: F)
        where F: Fn(&[WindowId], Rect, &LayoutConfig) -> Vec<(WindowId, Rect)> + 'static,
        requires
            forall|w: &[WindowId], a: Rect, c: &LayoutConfig| #[trigger] call_requires(func, (w, a, c)),
        ensures
            final(self)@ == old(self)@.remove(name@),
            final(self).custom_names() == old(self).custom_names().insert(name@),
    {
        let layout = CustomLayout::new(name.clone(), func);
        self.register_custom(name, Box::new(layout));
    }

    /// Registers, under `name`, a layout that a plugin computes with `arranger` (as
    /// `register_fn` does).
    pub fn register_plugin<F>(&mut self, name: String, arranger: F)
        where F: Fn(&[WindowId], Rect, &LayoutConfig) -> Vec<(WindowId, Rect)> + 'static,
        requires
            forall|w: &[WindowId], a: Rect, c: &LayoutConfig| #[trigger] call_requires(arranger, (w, a, c)),
        ensures
            final(self)@ == old(self)@.remove(name@),
            final(self).custom_names() == old(self).custom_names().insert(name@),
    {
        self.register_fn(name, arranger);
    }

    /// Registers the user-supplied `layout` under the name it gives, which is returned.
    pub fn register_layout(&mut self, layout: Box<dyn Layout>) -> (name: String)
        ensures
            final(self)@ == old(self)@.remove(name@),
            final(self).custom_names() == old(self).custom_names().insert(name@),
    {
        let name = String::from_str(layout.name());
        self.register_custom(name.clone(), layout);
        name
    }

    /// Whether some layout, built-in or user-supplied, is registered under `name`.
    pub fn has_layout(&self, name: &str) -> (r: bool)
        ensures
            r == self.knows(name@),
    {
        proof {
            use_type_invariant(self);
            lemma_entries_map(self.layouts@);
        }
        match self.find(name) {
            Some(i) => {
                assert(self@.contains_key(self.layouts@[i as int].0@));
                true
            },
            None => self.find_custom(name).is_some(),
        }
    }

    /// The geometry that the user-supplied layout registered under `name` gives `windows`,
    /// if one is registered under that name.
    pub fn arrange_custom(&self, name: &str, windows: &[WindowId], usable_area: Rect, config: &LayoutConfig) -> (r: Option<Vec<(WindowId, Rect)>>)
        ensures
            r is Some == self.custom_names().contains(name@),
    {
        proof {
            use_type_invariant(self);
        }
        match self.find_custom(name) {
            Some(i) => {
                assert(custom_name_set(self.user.names@).contains(self.user.names@[i as int]@));
                Some(self.user.layouts[i].arrange(windows, usable_area, config))
            },
            None => None,
        }
    }

    /// The built-in layout registered under `name`.
    pub fn get(&self, name: &str) -> (r: Option<LayoutKind>)
        ensures
            r == (if self@.contains_key(name@) {
                Some(self@[name@])
            } else {
                None
            }),
            r is Some ==> !self.custom_names().contains(name@),
    {
        proof {
            use_type_invariant(self);
            lemma_entries_map(self.layouts@);
        }
        match self.find(name) {
            Some(i) => {
                assert(self@[self.layouts@[i as int].0@] == self.layouts@[i as int].1);
                assert(!self.custom_names().contains(name@)) by {
                    if self.custom_names().contains(name@) {
                        let j = choose|j: int| 0 <= j < self.user.names@.len() && #[trigger] self.user.names@[j]@ == name@;
                        assert(!entries_map(self.layouts@).contains_key(self.user.names@[j]@));
                    }
                }
                Some(self.layouts[i].1)
            },
            None => None,
        }
    }

    /// The registered layout names, built-in and user-supplied, each once.
    pub fn names(&self) -> (r: Vec<String>)
        ensures
            forall|n: Seq<char>| self.knows(n) <==> exists|i: int| 0 <= i < r@.len() && #[trigger] r@[i]@ == n,
            forall|i: int, j: int| 0 <= i < j < r@.len() ==> #[trigger] r@[i]@ != #[trigger] r@[j]@,
    {
        proof {
            use_type_invariant(self);
            lemma_entries_map(self.layouts@);
        }
        let mut r: Vec<String> = Vec::new();
        let mut i: usize = 0;
        while i < self.layouts.len()
            invariant
                i <= self.layouts@.len(),
                r@.len() == i,
                forall|j: int| 0 <= j < i ==> #[trigger] r@[j]@ == self.layouts@[j].0@,
            decreases self.layouts.len() - i,
        {
            r.push(self.layouts[i].0.clone());
            i = i + 1;
        }
        let base = self.layouts.len();
        let mut k: usize = 0;
        while k < self.user.names.len()
            invariant
                base == self.layouts@.len(),
                k <= self.user.names@.len(),
                r@.len() == base + k,
                forall|j: int| 0 <= j < base ==> #[trigger] r@[j]@ == self.layouts@[j].0@,
                forall|j: int| 0 <= j < k ==> #[trigger] r@[base + j]@ == self.user.names@[j]@,
            decreases self.user.names.len() - k,
        {
            r.push(self.user.names[k].clone());
            proof {
                assert forall|j: int| 0 <= j < k + 1 implies #[trigger] r@[base + j]@ == self.user.names@[j]@ by {
                    if j < k {
                        assert(r@[base + j]@ == self.user.names@[j]@);
                    }
                }
            }
            k = k + 1;
        }
        proof {
            let l = self.layouts@;
            let c = self.user.names@;
            assert forall|j: int| 0 <= j < r@.len() implies (j < base ==> (#[trigger] r@[j])@ == l[j].0@) && (j >= base ==> r@[j]@ == c[j - base]@) by {
                if j >= base {
                    assert(r@[base + (j - base)]@ == c[j - base]@);
                }
            }
            assert forall|n: Seq<char>| self.knows(n) <==> exists|j: int| 0 <= j < r@.len() && #[trigger] r@[j]@ == n by {
                if exists|j: int| 0 <= j < r@.len() && #[trigger] r@[j]@ == n {
                    let j = choose|j: int| 0 <= j < r@.len() && #[trigger] r@[j]@ == n;
                    if j < base {
                        assert(l[j].0@ == n);
                    } else {
                        assert(c[j - base]@ == n);
                        assert(custom_name_set(c).contains(n));
                    }
                }
                if self@.contains_key(n) {
                    let j = choose|j: int| 0 <= j < l.len() && l[j].0@ == n;
                    assert(r@[j]@ == n);
                }
                if self.custom_names().contains(n) {
                    let j = choose|j: int| 0 <= j < c.len() && #[trigger] c[j]@ == n;
                    assert(r@[base + j]@ == n);
                }
            }
            assert forall|a: int, b: int| 0 <= a < b < r@.len() implies #[trigger] r@[a]@ != #[trigger] r@[b]@ by {
                if b < base {
                    assert(l[a].0@ != l[b].0@);
                } else if a >= base {
                    assert(c[a - base]@ != c[b - base]@);
                } else {
                    assert(entries_map(l).contains_key(l[a].0@));
                    assert(!entries_map(l).contains_key(c[b - base]@));
                }
            }
        }
        r
    }
}

/// Appends `x` to `v`.
fn push_item<T>(v: &mut Vec<T>, x: T)
    ensures
        final(v)@.len() == old(v)@.len() + 1,
{
    v.push(x);
}

/// Replaces the element of `v` at `i` by `x`.
fn set_item<T>(v: &mut Vec<T>, i: usize, x: T)
    requires
        i < old(v)@.len(),
    ensures
        final(v)@.len() == old(v)@.len(),
{
    v.set(i, x);
}

/// Takes the element of `v` at `i` out.
fn remove_item<T>(v: &mut Vec<T>, i: usize) -> (x: T)
    requires
        i < old(v)@.len(),
    ensures
        final(v)@ == old(v)@.remove(i as int),
{
    v.remove(i)
}

/// Finds `name` among user-supplied registrations.
fn find_name(c: &Vec<String>, name: &str) -> (r: Option<usize>)
    ensures
        match r {
            Some(i) => i < c@.len() && c@[i as int]@ == name@,
            None => !custom_name_set(c@).contains(name@),
        },
{
    let mut i: usize = 0;
    while i < c.len()
        invariant
            i <= c@.len(),
            forall|j: int| 0 <= j < i ==> c@[j]@ != name@,
        decreases c.len() - i,
    {
        if str_equal(c[i].as_str(), name) {
            return Some(i);
        }
        i = i + 1;
    }
    None
}

proof fn lemma_custom_remove(c: Seq<String>, i: int)
    requires
        custom_names_unique(c),
        0 <= i < c.len(),
    ensures
        custom_names_unique(c.remove(i)),
        custom_name_set(c.remove(i)) == custom_name_set(c).remove(c[i]@),
{
    let d = c.remove(i);
    c.remove_ensures(i);
    assert forall|a: int, b: int| 0 <= a < b < d.len() implies #[trigger] d[a]@ != #[trigger] d[b]@ by {
        let a2 = if a < i { a } else { a + 1 };
        let b2 = if b < i { b } else { b + 1 };
        assert(d[a] == c[a2]);
        assert(d[b] == c[b2]);
    }
    assert forall|k: Seq<char>| custom_name_set(d).contains(k) == custom_name_set(c).remove(c[i]@).contains(k) by {
        if custom_name_set(d).contains(k) {
            let j = choose|j: int| 0 <= j < d.len() && #[trigger] d[j]@ == k;
            let j2 = if j < i { j } else { j + 1 };
            assert(d[j] == c[j2]);
            assert(c[j2]@ != c[i]@);
        }
        if custom_name_set(c).contains(k) && k != c[i]@ {
            let j = choose|j: int| 0 <= j < c.len() && #[trigger] c[j]@ == k;
            if j < i {
                assert(d[j] == c[j]);
            } else {
                assert(d[j - 1] == c[j]);
            }
        }
    }
    assert(custom_name_set(d) =~= custom_name_set(c).remove(c[i]@));
}

proof fn lemma_entries_remove(e: Seq<(String, LayoutKind)>, i: int)
    requires
        names_unique(e),
        0 <= i < e.len(),
    ensures
        names_unique(e.remove(i)),
        entries_map(e.remove(i)) == entries_map(e).remove(e[i].0@),
{
    let d = e.remove(i);
    e.remove_ensures(i);
    assert forall|a: int, b: int| 0 <= a < b < d.len() implies #[trigger] d[a].0@ != #[trigger] d[b].0@ by {
        let a2 = if a < i { a } else { a + 1 };
        let b2 = if b < i { b } else { b + 1 };
        assert(d[a] == e[a2]);
        assert(d[b] == e[b2]);
    }
    lemma_entries_map(e);
    lemma_entries_map(d);
    let m = entries_map(e).remove(e[i].0@);
    assert forall|k: Seq<char>| #[trigger] entries_map(d).contains_key(k) == m.contains_key(k) by {
        if entries_map(d).contains_key(k) {
            let j = choose|j: int| 0 <= j < d.len() && d[j].0@ == k;
            let j2 = if j < i { j } else { j + 1 };
            assert(d[j] == e[j2]);
            assert(e[j2].0@ != e[i].0@);
        }
        if m.contains_key(k) {
            let j = choose|j: int| 0 <= j < e.len() && e[j].0@ == k;
            if j < i {
                assert(d[j] == e[j]);
            } else {
                assert(d[j - 1] == e[j]);
            }
        }
    }
    assert forall|k: Seq<char>| #[trigger] entries_map(d).contains_key(k) implies entries_map(d)[k] == m[k] by {
        let j = choose|j: int| 0 <= j < d.len() && d[j].0@ == k;
        let j2 = if j < i { j } else { j + 1 };
        assert(d[j] == e[j2]);
        assert(entries_map(d)[d[j].0@] == d[j].1);
        assert(entries_map(e)[e[j2].0@] == e[j2].1);
    }
    assert(entries_map(d) =~= m);
}

/// `entries_map(entries).insert(n, kind)`.
pub open spec fn old_entries_map_insert(entries: Seq<(String, LayoutKind)>, n: Seq<char>, kind: LayoutKind) -> Map<Seq<char>, LayoutKind> {
    entries_map(entries).insert(n, kind)
}

proof fn lemma_entries_len(entries: Seq<(String, LayoutKind)>)
    requires
        names_unique(entries),
    ensures
        entries_map(entries).dom().len() == entries.len(),
        entries_map(entries).dom().finite(),
    decreases entries.len(),
{
    if entries.len() > 0 {
        let rest = entries.drop_last();
        lemma_entries_len(rest);
        lemma_entries_map(rest);
        assert(!entries_map(rest).contains_key(entries.last().0@)) by {
            if entries_map(rest).contains_key(entries.last().0@) {
                let i = choose|i: int| 0 <= i < rest.len() && rest[i].0@ == entries.last().0@;
                assert(entries[i].0@ != entries[entries.len() - 1].0@);
            }
        }
    }
}

impl Default for LayoutRegistry {
    fn default() -> (r: LayoutRegistry)
        ensures
            r@ == Map::<Seq<char>, LayoutKind>::empty(),
            r.custom_names() == Set::<Seq<char>>::empty(),
    {
        LayoutRegistry::empty()
    }
}

} // verus!
