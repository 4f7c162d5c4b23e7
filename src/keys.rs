use vstd::prelude::*;

verus! {

/// The left and right variants of Shift, Ctrl, Alt and the Windows key
/// folded into one code each.
pub open spec fn normalize_key(k: i32) -> i32 {
    if k == 160 || k == 161 {
        16
    } else if k == 162 || k == 163 {
        17
    } else if k == 164 || k == 165 {
        18
    } else if k == 91 || k == 92 {
        91
    } else {
        k
    }
}

/// Every key code of `keys` folded by `normalize_key`.
pub fn normalize_keys(keys: Vec<i32>) -> (r: Vec<i32>)
    ensures
        r@.len() == keys@.len(),
        forall|i: int| 0 <= i < keys@.len() ==> #[trigger] r@[i] == normalize_key(keys@[i]),
{
    let mut r: Vec<i32> = Vec::new();
    let mut i: usize = 0;
    while i < keys.len()
        invariant
            i <= keys@.len(),
            r@.len() == i,
            forall|j: int| 0 <= j < i ==> #[trigger] r@[j] == normalize_key(keys@[j]),
        decreases keys@.len() - i,
    {
        let k = keys[i];
        let n = if k == 160 || k == 161 {
            16
        } else if k == 162 || k == 163 {
            17
        } else if k == 164 || k == 165 {
            18
        } else if k == 91 || k == 92 {
            91
        } else {
            k
        };
        r.push(n);
        i = i + 1;
    }
    r
}

/// What the keyboard reported.
#[derive(Debug, Clone, Copy, PartialEq, Eq, Structural)]
pub enum KeyAction {
    Down,
    Up,
    Other,
}

/// A registered chord: its key codes, the least time between two firings,
/// and when it last fired (milliseconds on a monotonic clock).
pub struct ChordHook {
    pub vk_codes: Vec<i32>,
    pub interval_ms: u64,
    pub last_trigger_ms: u64,
}

/// The state of the global hotkey listener: the registered chords and the
/// keys held down. The operating system's hook feeds it key events.
pub struct KeyListener {
    hooks: Vec<ChordHook>,
    pressed: Vec<i32>,
}

/// Every code of the chord is among the held keys.
pub open spec fn chord_held(codes: Seq<i32>, held: Seq<i32>) -> bool {
    forall|j: int| 0 <= j < codes.len() ==> held.contains(#[trigger] codes[j])
}

/// Every code of the chord is, once folded, among the held keys.
pub open spec fn chord_held_in(codes: Seq<i32>, held: Set<i32>) -> bool {
    forall|j: int| 0 <= j < codes.len() ==> #[trigger] folds_to(held, codes[j])
}

/// Some held key folds to `code`.
pub open spec fn folds_to(held: Set<i32>, code: i32) -> bool {
    exists|k: i32| #[trigger] held.contains(k) && normalize_key(k) == code
}

/// The held keys after one key event.
pub open spec fn held_after(held: Set<i32>, vk: i32, action: KeyAction) -> Set<i32> {
    match action {
        KeyAction::Down => held.insert(vk),
        KeyAction::Up => held.remove(vk),
        KeyAction::Other => held,
    }
}

impl KeyListener {
    pub closed spec fn hooks(&self) -> Seq<ChordHook> {
        self.hooks@
    }

    /// The keys held down.
    pub closed spec fn pressed(&self) -> Set<i32> {
        self.pressed@.to_set()
    }

    pub closed spec fn pressed_seq(&self) -> Seq<i32> {
        self.pressed@
    }

    pub closed spec fn wf(&self) -> bool {
        self.pressed@.no_duplicates()
    }

    /// A listener with no chord and no key held.
    pub fn new() -> (r: KeyListener)
        ensures
            r.wf(),
            r.hooks().len() == 0,
            r.pressed() == Set::<i32>::empty(),
    {
        let r = KeyListener { hooks: Vec::new(), pressed: Vec::new() };
        proof {
            assert(r.pressed@.to_set() =~= Set::<i32>::empty());
        }
        r
    }

    /// Registers a chord, counted as having just fired at `now_ms`.
    pub fn listen(&mut self, vk_codes: Vec<i32>, interval_ms: u64, now_ms: u64)
        requires
            old(self).wf(),
        ensures
            final(self).wf(),
            final(self).pressed() == old(self).pressed(),
            final(self).pressed_seq() == old(self).pressed_seq(),
            final(self).hooks().len() == old(self).hooks().len() + 1,
            forall|i: int| 0 <= i < old(self).hooks().len() ==> #[trigger] final(self).hooks()[i] == old(self).hooks()[i],
            final(self).hooks().last().vk_codes@ == vk_codes@,
            final(self).hooks().last().interval_ms == interval_ms,
            final(self).hooks().last().last_trigger_ms == now_ms,
    {
        self.hooks.push(ChordHook { vk_codes, interval_ms, last_trigger_ms: now_ms });
    }

    /// Drops every registered chord.
    pub fn unlisten(&mut self)
        requires
            old(self).wf(),
        ensures
            final(self).wf(),
            final(self).hooks().len() == 0,
            final(self).pressed() == old(self).pressed(),
    {
        self.hooks = Vec::new();
    }

    /// Takes one key event: records the key as held or released, and gives,
    /// in order, the chords that the held keys now complete. When one is
    /// complete, the held keys are forgotten.
    pub fn on_key(&mut self, vk: i32, action: KeyAction) -> (r: Vec<usize>)
        requires
            old(self).wf(),
        ensures
            final(self).wf(),
            final(self).hooks() == old(self).hooks(),
            forall|j: int| 0 <= j < r@.len() ==> #[trigger] r@[j] < old(self).hooks().len(),
            forall|a: int, b: int| 0 <= a < b < r@.len() ==> r@[a] < r@[b],
            forall|i: int|
                0 <= i < old(self).hooks().len() ==> (r@.contains(i as usize) <==> chord_held_in(
                    #[trigger] old(self).hooks()[i].vk_codes@,
                    held_after(old(self).pressed(), vk, action),
                )),
            final(self).pressed() == if r@.len() > 0 {
                Set::<i32>::empty()
            } else {
                held_after(old(self).pressed(), vk, action)
            },
    {
        match action {
            KeyAction::Down => {
                if !vec_contains(&self.pressed, vk) {
                    self.pressed.push(vk);
                    proof {
                        let n = old(self).pressed@.len();
                        assert(self.pressed@[n as int] == vk);
                        assert forall|k: i32|
                            self.pressed@.contains(k) <==> (old(self).pressed@.contains(k) || k == vk) by {
                            if self.pressed@.contains(k) {
                                let a = choose|a: int| 0 <= a < self.pressed@.len() && self.pressed@[a] == k;
                                if a < n {
                                    assert(old(self).pressed@[a] == k);
                                }
                            }
                            if old(self).pressed@.contains(k) {
                                let a = choose|a: int| 0 <= a < n && old(self).pressed@[a] == k;
                                assert(self.pressed@[a] == k);
                            }
                        }
                        assert(self.pressed@.to_set() =~= old(self).pressed@.to_set().insert(vk));
                        assert forall|a: int, b: int|
                            0 <= a < self.pressed@.len() && 0 <= b < self.pressed@.len() && a != b
                            implies self.pressed@[a] != self.pressed@[b] by {
                            if a == n {
                                assert(self.pressed@[b] == old(self).pressed@[b]);
                                if old(self).pressed@[b] == vk {
                                    assert(old(self).pressed@.contains(vk));
                                }
                            } else if b == n {
                                assert(self.pressed@[a] == old(self).pressed@[a]);
                                if old(self).pressed@[a] == vk {
                                    assert(old(self).pressed@.contains(vk));
                                }
                            } else {
                                assert(self.pressed@[a] == old(self).pressed@[a]);
                                assert(self.pressed@[b] == old(self).pressed@[b]);
                            }
                        }
                    }
                } else {
                    proof {
                        assert(old(self).pressed@.to_set().insert(vk) =~= old(self).pressed@.to_set());
                    }
                }
            },
            KeyAction::Up => {
                self.pressed = vec_without(&self.pressed, vk);
            },
            KeyAction::Other => {},
        }
        let ghost set = held_after(old(self).pressed(), vk, action);
        proof {
            assert(self.pressed@.to_set() =~= set);
        }
        let held = normalize_keys(copy_keys(&self.pressed));
        proof {
            assert forall|codes: Seq<i32>| chord_held(codes, held@) <==> chord_held_in(codes, set) by {
                if chord_held(codes, held@) {
                    assert forall|j: int| 0 <= j < codes.len() implies #[trigger] folds_to(set, codes[j]) by {
                        assert(held@.contains(codes[j]));
                        let a = choose|a: int| 0 <= a < held@.len() && held@[a] == codes[j];
                        assert(held@[a] == normalize_key(self.pressed@[a]));
                        assert(self.pressed@.contains(self.pressed@[a]));
                        assert(set.contains(self.pressed@[a]));
                    }
                    assert(chord_held_in(codes, set));
                }
                if chord_held_in(codes, set) {
                    assert forall|j: int| 0 <= j < codes.len() implies held@.contains(
                        #[trigger] codes[j],
                    ) by {
                        assert(folds_to(set, codes[j]));
                        let k = choose|k: i32| #[trigger] set.contains(k) && normalize_key(k) == codes[j];
                        assert(self.pressed@.contains(k));
                        let a = choose|a: int| 0 <= a < self.pressed@.len() && self.pressed@[a] == k;
                        assert(held@[a] == codes[j]);
                        assert(held@.contains(codes[j]));
                    }
                    assert(chord_held(codes, held@));
                }
            }
        }
        let mut r: Vec<usize> = Vec::new();
        let mut i: usize = 0;
        while i < self.hooks.len()
            invariant
                i <= self.hooks@.len(),
                self.hooks@ == old(self).hooks@,
                forall|j: int| 0 <= j < r@.len() ==> #[trigger] r@[j] < i,
                forall|a: int, b: int| 0 <= a < b < r@.len() ==> r@[a] < r@[b],
                forall|c: int|
                    0 <= c < i ==> (r@.contains(c as usize) <==> chord_held(
                        #[trigger] self.hooks@[c].vk_codes@,
                        held@,
                    )),
            decreases self.hooks@.len() - i,
        {
            let ghost before = r@;
            if all_held(&self.hooks[i].vk_codes, &held) {
                r.push(i);
                proof {
                    assert(r@[r@.len() - 1] == i);
                    assert forall|c: int| 0 <= c < i + 1 implies (r@.contains(c as usize) <==> chord_held(
                        #[trigger] self.hooks@[c].vk_codes@,
                        held@,
                    )) by {
                        if r@.contains(c as usize) && c < i {
                            let a = choose|a: int| 0 <= a < r@.len() && r@[a] == c as usize;
                            assert(a < before.len());
                            assert(before.contains(c as usize));
                        }
                        if c < i && before.contains(c as usize) {
                            let a = choose|a: int| 0 <= a < before.len() && before[a] == c as usize;
                            assert(r@[a] == c as usize);
                        }
                    }
                }
            } else {
                proof {
                    assert forall|c: int| 0 <= c < i + 1 implies (r@.contains(c as usize) <==> chord_held(
                        #[trigger] self.hooks@[c].vk_codes@,
                        held@,
                    )) by {
                        if c == i {
                            if r@.contains(c as usize) {
                                let a = choose|a: int| 0 <= a < r@.len() && r@[a] == c as usize;
                            }
                        }
                    }
                }
            }
            i = i + 1;
        }
        if r.len() > 0 {
            self.pressed = Vec::new();
            proof {
                assert(self.pressed@.to_set() =~= Set::<i32>::empty());
            }
        }
        r
    }

    /// Fires the chord `i` if its interval has passed since it last fired
    /// (a clock that went back counts as no time), and records the firing.
    pub fn try_fire(&mut self, i: usize, now_ms: u64) -> (r: bool)
        requires
            old(self).wf(),
            i < old(self).hooks().len(),
        ensures
            final(self).wf(),
            final(self).pressed_seq() == old(self).pressed_seq(),
            final(self).hooks().len() == old(self).hooks().len(),
            r == ((if now_ms >= old(self).hooks()[i as int].last_trigger_ms {
                now_ms - old(self).hooks()[i as int].last_trigger_ms
            } else {
                0
            }) >= old(self).hooks()[i as int].interval_ms),
            forall|j: int| 0 <= j < old(self).hooks().len() && j != i ==> #[trigger] final(self).hooks()[j] == old(self).hooks()[j],
            final(self).hooks()[i as int].vk_codes == old(self).hooks()[i as int].vk_codes,
            final(self).hooks()[i as int].interval_ms == old(self).hooks()[i as int].interval_ms,
            final(self).hooks()[i as int].last_trigger_ms == if r { now_ms } else { old(self).hooks()[i as int].last_trigger_ms },
    {
        let last = self.hooks[i].last_trigger_ms;
        let elapsed: u64 = if now_ms >= last { now_ms - last } else { 0 };
        if elapsed >= self.hooks[i].interval_ms {
            self.hooks[i].last_trigger_ms = now_ms;
            true
        } else {
            false
        }
    }
}

fn copy_keys(v: &Vec<i32>) -> (r: Vec<i32>)
    ensures
        r@ == v@,
{
    let mut r: Vec<i32> = Vec::new();
    let mut i: usize = 0;
    while i < v.len()
        invariant
            i <= v@.len(),
            r@ == v@.take(i as int),
        decreases v@.len() - i,
    {
        r.push(v[i]);
        assert(v@.take(i + 1) =~= v@.take(i as int).push(v@[i as int]));
        i = i + 1;
    }
    assert(v@.take(v@.len() as int) =~= v@);
    r
}

fn vec_contains(v: &Vec<i32>, x: i32) -> (r: bool)
    ensures
        r == v@.contains(x),
{
    let mut i: usize = 0;
    while i < v.len()
        invariant
            i <= v@.len(),
            forall|j: int| 0 <= j < i ==> v@[j] != x,
        decreases v@.len() - i,
    {
        if v[i] == x {
            return true;
        }
        i = i + 1;
    }
    false
}

fn vec_without(v: &Vec<i32>, x: i32) -> (r: Vec<i32>)
    requires
        v@.no_duplicates(),
    ensures
        r@.no_duplicates(),
        r@.to_set() == v@.to_set().remove(x),
{
    let mut r: Vec<i32> = Vec::new();
    let mut i: usize = 0;
    while i < v.len()
        invariant
            i <= v@.len(),
            v@.no_duplicates(),
            r@.no_duplicates(),
            forall|k: i32| r@.contains(k) <==> (k != x && exists|j: int| 0 <= j < i && v@[j] == k),
        decreases v@.len() - i,
    {
        let ghost before = r@;
        if v[i] != x {
            proof {
                assert forall|k: i32| r@.contains(k) implies k != v@[i as int] by {
                    let j = choose|j: int| 0 <= j < i && v@[j] == k;
                }
            }
            r.push(v[i]);
            proof {
                let n = before.len();
                assert forall|k: i32|
                    r@.contains(k) <==> (k != x && exists|j: int| 0 <= j < i + 1 && v@[j] == k) by {
                    if r@.contains(k) {
                        let a = choose|a: int| 0 <= a < r@.len() && r@[a] == k;
                        if a < n {
                            assert(before[a] == k);
                            assert(before.contains(k));
                        } else {
                            assert(v@[i as int] == k);
                        }
                    }
                    if k != x && exists|j: int| 0 <= j < i + 1 && v@[j] == k {
                        let j = choose|j: int| 0 <= j < i + 1 && v@[j] == k;
                        if j < i {
                            assert(before.contains(k));
                            let a = choose|a: int| 0 <= a < n && before[a] == k;
                            assert(r@[a] == k);
                        } else {
                            assert(r@[n as int] == k);
                        }
                    }
                }
                assert forall|a: int, b: int|
                    0 <= a < r@.len() && 0 <= b < r@.len() && a != b implies r@[a] != r@[b] by {
                    if a == n {
                        assert(before.contains(r@[b]));
                    } else if b == n {
                        assert(before.contains(r@[a]));
                    }
                }
            }
        } else {
            proof {
                assert forall|k: i32|
                    r@.contains(k) <==> (k != x && exists|j: int| 0 <= j < i + 1 && v@[j] == k) by {
                    if k != x && exists|j: int| 0 <= j < i + 1 && v@[j] == k {
                        let j = choose|j: int| 0 <= j < i + 1 && v@[j] == k;
                        assert(j < i);
                    }
                }
            }
        }
        i = i + 1;
    }
    assert forall|k: i32| r@.contains(k) <==> (k != x && v@.contains(k)) by {
        if k != x && v@.contains(k) {
            let j = choose|j: int| 0 <= j < v@.len() && v@[j] == k;
            assert(exists|j: int| 0 <= j < i && v@[j] == k);
        }
    }
    assert(r@.to_set() =~= v@.to_set().remove(x));
    r
}

fn all_held(codes: &Vec<i32>, held: &Vec<i32>) -> (r: bool)
    ensures
        r == chord_held(codes@, held@),
{
    let mut j: usize = 0;
    while j < codes.len()
        invariant
            j <= codes@.len(),
            forall|a: int| 0 <= a < j ==> held@.contains(#[trigger] codes@[a]),
        decreases codes@.len() - j,
    {
        if !vec_contains(held, codes[j]) {
            return false;
        }
        j = j + 1;
    }
    true
}

} // verus!
