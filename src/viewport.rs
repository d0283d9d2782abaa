//! Selection and scroll offset over an ordered collection of some length.

use vstd::prelude::*;

verus! {

/// A movement request coming from the key bindings.
#[derive(Clone, Copy, Debug, PartialEq, Eq)]
pub enum Movement {
    Up(usize),
    Down(usize),
    PageUp,
    PageDown,
    Top,
    Bottom,
    Left,
    Right,
}

/// One navigation call, as the state machine sees it.
pub enum Nav {
    Up,
    Down,
    PageUp,
    PageDown,
    Top,
    Bottom,
    Select(usize),
}

/// Selected index, first visible index and number of visible rows.
#[derive(Clone, Copy, Debug, PartialEq, Eq)]
pub struct Viewport {
    pub selection: usize,
    pub offset: usize,
    pub height: usize,
}

/// The largest index a selection may take in a collection of `len` items.
pub open spec fn last_index(len: nat) -> nat {
    if len == 0 { 0 } else { (len - 1) as nat }
}

pub open spec fn min_int(a: int, b: int) -> int {
    if a <= b { a } else { b }
}

pub open spec fn max_int(a: int, b: int) -> int {
    if a >= b { a } else { b }
}

impl Viewport {
    /// The part of the invariant that does not depend on the collection.
    pub open spec fn ok(self) -> bool {
        &&& self.height >= 1
        &&& self.offset <= self.selection
        &&& self.selection - self.offset < self.height
    }

    /// The full invariant over a collection of `len` items.
    pub open spec fn wf(self, len: nat) -> bool {
        &&& self.ok()
        &&& self.selection <= last_index(len)
    }

    pub open spec fn at(self, selection: int, offset: int) -> Viewport {
        Viewport { selection: selection as usize, offset: offset as usize, height: self.height }
    }

    pub open spec fn up(self) -> Viewport {
        if self.selection == 0 {
            self
        } else if self.selection - self.offset <= 0 {
            self.at(self.selection - 1, self.offset - 1)
        } else {
            self.at(self.selection - 1, self.offset as int)
        }
    }

    pub open spec fn down(self, len: nat) -> Viewport {
        if len == 0 || self.selection + 1 >= len {
            self
        } else if self.selection + 1 >= self.height && self.selection + 1 - self.offset
            >= self.height {
            self.at(self.selection + 1, self.offset + 1)
        } else {
            self.at(self.selection + 1, self.offset as int)
        }
    }

    /// Paged scrolling: the offset is the multiple of the height whose page
    /// holds `pos`.
    pub open spec fn select(self, pos: nat) -> Viewport {
        self.at(pos as int, ((pos / self.height as nat) * self.height as nat) as int)
    }

    /// `n` moves up.
    pub open spec fn up_by(self, n: nat) -> Viewport {
        let s = self.selection - min_int(self.selection as int, n as int);
        self.at(s, min_int(self.offset as int, s))
    }

    /// `n` moves down over a collection of `len` items.
    pub open spec fn down_by(self, len: nat, n: nat) -> Viewport {
        if len == 0 {
            self
        } else {
            let s = min_int(self.selection + n, len - 1);
            self.at(s, max_int(self.offset as int, s - self.height + 1))
        }
    }

    pub open spec fn page_up_to(self) -> Viewport {
        self.up_by(self.height as nat)
    }

    pub open spec fn page_down_to(self, len: nat) -> Viewport {
        self.down_by(len, self.height as nat)
    }

    pub open spec fn step(self, len: nat, nav: Nav) -> Viewport {
        match nav {
            Nav::Up => self.up(),
            Nav::Down => self.down(len),
            Nav::PageUp => self.page_up_to(),
            Nav::PageDown => self.page_down_to(len),
            Nav::Top => self.select(0),
            Nav::Bottom => self.select(last_index(len)),
            Nav::Select(pos) => self.select(pos as nat),
        }
    }

    pub open spec fn run(self, len: nat, navs: Seq<Nav>) -> Viewport
        decreases navs.len(),
    {
        if navs.len() == 0 {
            self
        } else {
            self.step(len, navs[0]).run(len, navs.drop_first())
        }
    }

    pub fn new(height: usize) -> (r: Viewport)
        requires
            height >= 1,
        ensures
            r == (Viewport { selection: 0, offset: 0, height }),
            forall|len: nat| r.wf(len),
    {
        Viewport { selection: 0, offset: 0, height }
    }

    pub fn get_selection(&self) -> (r: usize)
        ensures
            r == self.selection,
    {
        self.selection
    }

    pub fn move_up(&mut self)
        requires
            old(self).ok(),
        ensures
            *final(self) == old(self).up(),
    {
        if self.selection == 0 {
            return;
        }
        if self.selection - self.offset <= 0 {
            self.offset = self.offset - 1;
        }
        self.selection = self.selection - 1;
    }

    pub fn move_down(&mut self, len: usize)
        requires
            old(self).ok(),
        ensures
            *final(self) == old(self).down(len as nat),
    {
        if len == 0 || self.selection >= len - 1 {
            return;
        }
        if self.selection + 1 >= self.height && self.selection + 1 - self.offset >= self.height {
            self.offset = self.offset + 1;
        }
        self.selection = self.selection + 1;
    }

    pub fn set_selection(&mut self, position: usize)
        requires
            old(self).ok(),
        ensures
            *final(self) == old(self).select(position as nat),
            final(self).ok(),
    {
        let page: usize = position / self.height;
        proof {
            lemma_page_start(position as nat, self.height as nat);
        }
        self.offset = page * self.height;
        self.selection = position;
    }

    pub fn move_top(&mut self)
        requires
            old(self).ok(),
        ensures
            *final(self) == old(self).select(0),
            final(self).ok(),
    {
        self.set_selection(0);
    }

    pub fn move_bottom(&mut self, len: usize)
        requires
            old(self).ok(),
        ensures
            *final(self) == old(self).select(last_index(len as nat)),
            final(self).ok(),
    {
        if len == 0 {
            self.set_selection(0);
        } else {
            self.set_selection(len - 1);
        }
    }

    pub fn page_up(&mut self)
        requires
            old(self).ok(),
        ensures
            *final(self) == old(self).page_up_to(),
    {
        let ghost start = *self;
        let mut i: usize = 0;
        while i < self.height
            invariant
                start.ok(),
                self.height == start.height,
                i <= start.height,
                self.selection == start.selection - min_int(start.selection as int, i as int),
                self.offset == min_int(start.offset as int, self.selection as int),
                self.ok(),
            decreases start.height - i,
        {
            self.move_up();
            i = i + 1;
        }
    }

    pub fn page_down(&mut self, len: usize)
        requires
            old(self).wf(len as nat),
        ensures
            *final(self) == old(self).page_down_to(len as nat),
    {
        if len == 0 {
            return;
        }
        let ghost start = *self;
        let mut i: usize = 0;
        while i < self.height
            invariant
                start.wf(len as nat),
                len > 0,
                self.height == start.height,
                i <= start.height,
                self.selection == min_int(start.selection + i, len - 1),
                self.offset == max_int(start.offset as int, self.selection - self.height + 1),
                self.wf(len as nat),
            decreases start.height - i,
        {
            self.move_down(len);
            i = i + 1;
        }
    }

    /// Carries out a movement request over a collection of `len` items.
    pub fn movement(&mut self, m: Movement, len: usize)
        requires
            old(self).wf(len as nat),
        ensures
            final(self).wf(len as nat),
            match m {
                Movement::PageUp => *final(self) == old(self).page_up_to(),
                Movement::PageDown => *final(self) == old(self).page_down_to(len as nat),
                Movement::Top => *final(self) == old(self).select(0),
                Movement::Bottom => *final(self) == old(self).select(last_index(len as nat)),
                Movement::Left | Movement::Right => *final(self) == *old(self),
                Movement::Up(n) => *final(self) == old(self).up_by(n as nat),
                Movement::Down(n) => *final(self) == old(self).down_by(len as nat, n as nat),
            },
    {
        proof {
            lemma_step_keeps_wf(*self, len as nat, Nav::PageUp);
            lemma_step_keeps_wf(*self, len as nat, Nav::PageDown);
            lemma_step_keeps_wf(*self, len as nat, Nav::Top);
            lemma_step_keeps_wf(*self, len as nat, Nav::Bottom);
        }
        match m {
            Movement::Up(n) => {
                let ghost start = *self;
                let mut i: usize = 0;
                while i < n
                    invariant
                        start.wf(len as nat),
                        i <= n,
                        self.selection == start.selection - min_int(
                            start.selection as int,
                            i as int,
                        ),
                        self.offset == min_int(start.offset as int, self.selection as int),
                        self.height == start.height,
                        self.wf(len as nat),
                    decreases n - i,
                {
                    proof {
                        lemma_step_keeps_wf(*self, len as nat, Nav::Up);
                    }
                    self.move_up();
                    i = i + 1;
                }
            },
            Movement::Down(n) => {
                let ghost start = *self;
                let mut i: usize = 0;
                while i < n
                    invariant
                        start.wf(len as nat),
                        i <= n,
                        self.selection == min_int(
                            start.selection + i,
                            last_index(len as nat) as int,
                        ),
                        len > 0 ==> self.offset == max_int(start.offset as int, self.selection - self.height + 1),
                        len == 0 ==> *self == start,
                        self.height == start.height,
                        self.wf(len as nat),
                    decreases n - i,
                {
                    proof {
                        lemma_step_keeps_wf(*self, len as nat, Nav::Down);
                    }
                    self.move_down(len);
                    i = i + 1;
                }
            },
            Movement::PageUp => self.page_up(),
            Movement::PageDown => self.page_down(len),
            Movement::Top => self.move_top(),
            Movement::Bottom => self.move_bottom(len),
            Movement::Left | Movement::Right => {},
        }
    }
}

proof fn lemma_page_start(pos: nat, h: nat)
    requires
        h >= 1,
    ensures
        (pos / h) * h <= pos,
        pos - (pos / h) * h < h,
{
    vstd::arithmetic::div_mod::lemma_fundamental_div_mod(pos as int, h as int);
    vstd::arithmetic::div_mod::lemma_mod_bound(pos as int, h as int);
    assert(pos == h * (pos / h) + pos % h);
    assert((pos / h) * h == h * (pos / h)) by (nonlinear_arith);
}

/// Every navigation call keeps the viewport invariant.
pub proof fn lemma_step_keeps_wf(v: Viewport, len: nat, nav: Nav)
    requires
        v.wf(len),
        len <= usize::MAX,
        nav matches Nav::Select(p) ==> p <= last_index(len),
    ensures
        v.step(len, nav).wf(len),
{
    match nav {
        Nav::Top => lemma_page_start(0, v.height as nat),
        Nav::Bottom => lemma_page_start(last_index(len), v.height as nat),
        Nav::Select(p) => lemma_page_start(p as nat, v.height as nat),
        _ => {},
    }
}

/// Whatever sequence of navigation calls is made, each keeping its target
/// inside the collection, the viewport invariant holds afterwards.
pub proof fn lemma_navigation_keeps_wf(v: Viewport, len: nat, navs: Seq<Nav>)
    requires
        v.wf(len),
        len <= usize::MAX,
        forall|i: int|
            0 <= i < navs.len() ==> (#[trigger] navs[i] matches Nav::Select(p) ==> p
                <= last_index(len)),
    ensures
        v.run(len, navs).wf(len),
    decreases navs.len(),
{
    if navs.len() > 0 {
        lemma_step_keeps_wf(v, len, navs[0]);
        let rest = navs.drop_first();
        assert forall|i: int|
            0 <= i < rest.len() implies (#[trigger] rest[i] matches Nav::Select(p) ==> p
                <= last_index(len)) by {
            assert(rest[i] == navs[i + 1]);
        }
        lemma_navigation_keeps_wf(v.step(len, navs[0]), len, rest);
    }
}

} // verus!
