//! Environments of variables: each environment holds the variables defined
//! in it and refers to the environment that encloses it. All environments of
//! an interpreter live in one store, and an [`Environment`] names one of them.
use vstd::prelude::*;

verus! {

/// What goes wrong when reading or writing a variable.
#[derive(Debug, Clone, PartialEq, Eq)]
pub enum EnvironmentError {
    UndefinedVariable(String),
}

impl EnvironmentError {
    /// The message that describes this error.
    pub fn message(&self) -> (message: String)
        ensures
            message@ == match self {
                EnvironmentError::UndefinedVariable(name) =>
                    "definition for identifier '"@ + name@ + "' not found"@,
            },
    {
        match self {
            EnvironmentError::UndefinedVariable(name) => {
                let mut s = String::from_str("definition for identifier '");
                s.append(name.as_str());
                s.append("' not found");
                s
            },
        }
    }
}

/// One environment of a store.
#[derive(Debug, Clone, Copy, PartialEq, Eq, Structural)]
pub struct Environment {
    pub index: usize,
}

/// The variables of an environment and its enclosing environment.
pub struct Frame<V> {
    enclosing: Option<usize>,
    /// The definitions in order; a later one of a name hides an earlier one.
    entries: Vec<(String, V)>,
}

/// The mathematical view of an environment: the environment that encloses
/// it and the value of each of its variables.
pub struct FrameView<V> {
    pub enclosing: Option<nat>,
    pub values: Map<Seq<char>, V>,
}

/// The variables that definitions give, a later definition of a name hiding
/// an earlier one.
pub open spec fn values_of<V>(entries: Seq<(String, V)>) -> Map<Seq<char>, V>
    decreases entries.len(),
{
    if entries.len() == 0 {
        Map::empty()
    } else {
        values_of(entries.drop_last()).insert(entries.last().0@, entries.last().1)
    }
}

/// The view of a frame.
pub closed spec fn frame_view<V>(f: Frame<V>) -> FrameView<V> {
    FrameView {
        enclosing: match f.enclosing {
            Some(p) => Some(p as nat),
            None => None,
        },
        values: values_of(f.entries@),
    }
}

/// The environments of an interpreter.
pub struct Environments<V> {
    frames: Vec<Frame<V>>,
}

impl<V> View for Environments<V> {
    type V = Seq<FrameView<V>>;

    closed spec fn view(&self) -> Seq<FrameView<V>> {
        self.frames@.map_values(|f: Frame<V>| frame_view(f))
    }
}

/// Whether environments are well formed: the first is the global one, which
/// no environment encloses, and every other one is enclosed by an earlier one.
pub open spec fn well_formed<V>(fs: Seq<FrameView<V>>) -> bool {
    &&& fs.len() > 0
    &&& fs[0].enclosing is None
    &&& forall|i: int| 0 < i < fs.len() ==> ((#[trigger] fs[i].enclosing) matches Some(p) && p < i)
}

/// The first environment, from `i` outwards, that holds `name`.
pub open spec fn holder<V>(fs: Seq<FrameView<V>>, i: nat, name: Seq<char>) -> Option<nat>
    decreases i,
{
    if i >= fs.len() {
        None
    } else if fs[i as int].values.dom().contains(name) {
        Some(i)
    } else {
        match fs[i as int].enclosing {
            Some(p) => if p < i {
                holder(fs, p, name)
            } else {
                None
            },
            None => None,
        }
    }
}

/// The environment `distance` steps out from `i`, or the outermost one when
/// there are fewer steps.
pub open spec fn ancestor<V>(fs: Seq<FrameView<V>>, i: nat, distance: nat) -> nat
    decreases distance,
{
    if distance == 0 || i >= fs.len() {
        i
    } else {
        match fs[i as int].enclosing {
            Some(p) => if p < i {
                ancestor(fs, p, (distance - 1) as nat)
            } else {
                i
            },
            None => i,
        }
    }
}

/// The environment that encloses `i`; the global environment encloses itself.
pub open spec fn enclosing_of<V>(fs: Seq<FrameView<V>>, i: nat) -> nat {
    match fs[i as int].enclosing {
        Some(p) => p,
        None => i,
    }
}

/// Defining `name` as `value` in environment `i`.
pub open spec fn defined<V>(fs: Seq<FrameView<V>>, i: nat, name: Seq<char>, value: V) -> Seq<FrameView<V>> {
    fs.update(i as int, FrameView { enclosing: fs[i as int].enclosing, values: fs[i as int].values.insert(name, value) })
}

/// The value of `name` seen from environment `i`.
pub open spec fn value_seen<V>(fs: Seq<FrameView<V>>, i: nat, name: Seq<char>) -> Option<V> {
    match holder(fs, i, name) {
        Some(h) => Some(fs[h as int].values[name]),
        None => None,
    }
}

proof fn lemma_holder_bounds<V>(fs: Seq<FrameView<V>>, i: nat, name: Seq<char>)
    ensures
        holder(fs, i, name) matches Some(h) ==> h < fs.len() && fs[h as int].values.dom().contains(name),
    decreases i,
{
    if i < fs.len() && !fs[i as int].values.dom().contains(name) {
        if let Some(p) = fs[i as int].enclosing {
            if p < i {
                lemma_holder_bounds(fs, p, name);
            }
        }
    }
}

proof fn lemma_ancestor_bounds<V>(fs: Seq<FrameView<V>>, i: nat, distance: nat)
    requires
        i < fs.len(),
    ensures
        ancestor(fs, i, distance) < fs.len(),
    decreases distance,
{
    if distance > 0 {
        if let Some(p) = fs[i as int].enclosing {
            if p < i {
                lemma_ancestor_bounds(fs, p, (distance - 1) as nat);
            }
        }
    }
}

impl<V> Environments<V> {
    /// The invariant of a store: its view is well formed, so the laws over
    /// views apply to it.
    pub open spec fn wf(&self) -> bool {
        well_formed(self@)
    }

    proof fn lemma_view(&self)
        ensures
            self@.len() == self.frames@.len(),
            forall|i: int| 0 <= i < self.frames@.len() ==> #[trigger] self@[i] == frame_view(self.frames@[i]),
    {
    }

    /// A store that holds the global environment alone, with no variable.
    pub fn new() -> (envs: Environments<V>)
        ensures
            envs.wf(),
            envs@ == seq![FrameView::<V> { enclosing: None, values: Map::empty() }],
    {
        let mut frames: Vec<Frame<V>> = Vec::new();
        frames.push(Frame { enclosing: None, entries: Vec::new() });
        let envs = Environments { frames };
        assert(values_of(Seq::<(String, V)>::empty()) =~= Map::<Seq<char>, V>::empty());
        assert(envs@ =~= seq![FrameView::<V> { enclosing: None, values: Map::empty() }]);
        envs
    }

    /// The global environment.
    pub fn global(&self) -> (env: Environment)
        ensures
            env.index == 0,
    {
        Environment { index: 0 }
    }

    /// Whether an environment belongs to this store.
    pub open spec fn holds(&self, env: Environment) -> bool {
        env.index < self@.len()
    }

    /// A new environment, without variables, enclosed by `env`.
    pub fn new_local(&mut self, env: Environment) -> (local: Environment)
        requires
            old(self).wf(),
            old(self).holds(env),
        ensures
            final(self).wf(),
            local.index == old(self)@.len(),
            final(self)@ == old(self)@.push(FrameView { enclosing: Some(env.index as nat), values: Map::empty() }),
    {
        proof {
            self.lemma_view();
        }
        let index = self.frames.len();
        self.frames.push(Frame { enclosing: Some(env.index), entries: Vec::new() });
        proof {
            assert(values_of(Seq::<(String, V)>::empty()) =~= Map::<Seq<char>, V>::empty());
            assert(self@ =~= old(self)@.push(FrameView { enclosing: Some(env.index as nat), values: Map::empty() }));
        }
        Environment { index }
    }

    /// The environment that encloses `env`; the global environment encloses
    /// itself.
    pub fn enclosing(&self, env: Environment) -> (outer: Environment)
        requires
            self.wf(),
            self.holds(env),
        ensures
            outer.index == enclosing_of(self@, env.index as nat),
            self.holds(outer),
    {
        proof {
            self.lemma_view();
        }
        match self.frames[env.index].enclosing {
            Some(p) => Environment { index: p },
            None => env,
        }
    }

    /// Defines `name` as `value` in `env`, hiding any earlier definition of it there.
    pub fn define(&mut self, env: Environment, name: String, value: V)
        requires
            old(self).wf(),
            old(self).holds(env),
        ensures
            final(self).wf(),
            final(self)@ == defined(old(self)@, env.index as nat, name@, value),
    {
        proof {
            self.lemma_view();
        }
        let ghost key = name@;
        let mut frame = Frame { enclosing: None, entries: Vec::new() };
        std::mem::swap(&mut frame, &mut self.frames[env.index]);
        frame.entries.push((name, value));
        std::mem::swap(&mut frame, &mut self.frames[env.index]);
        proof {
            let i = env.index as int;
            let es = old(self).frames@[i].entries@;
            assert(self.frames@[i].entries@.drop_last() =~= es);
            assert(self.frames@ =~= old(self).frames@.update(i, self.frames@[i]));
            assert(self@ =~= defined(old(self)@, env.index as nat, key, value));
        }
    }

    /// Where the last definition of `name` stands in environment `i`.
    fn position_in(&self, i: usize, name: &String) -> (k: Option<usize>)
        requires
            self.wf(),
            i < self@.len(),
        ensures
            k matches Some(k) ==> k < self.frames@[i as int].entries@.len()
                && self.frames@[i as int].entries@[k as int].0@ == name@
                && self@[i as int].values.dom().contains(name@)
                && self@[i as int].values[name@] == self.frames@[i as int].entries@[k as int].1,
            k is None ==> !self@[i as int].values.dom().contains(name@),
    {
        proof {
            self.lemma_view();
        }
        let frame = &self.frames[i];
        let n = frame.entries.len();
        let mut k = n;
        while k > 0
            invariant
                k <= n,
                n == frame.entries@.len(),
                forall|j: int| k <= j < n ==> #[trigger] frame.entries@[j].0@ != name@,
                i < self.frames@.len(),
                *frame == self.frames@[i as int],
                self@[i as int] == frame_view(self.frames@[i as int]),
            decreases k,
        {
            if frame.entries[k - 1].0 == *name {
                proof {
                    lemma_values_of_last(frame.entries@, name@, (k - 1) as int);
                }
                return Some(k - 1);
            }
            k = k - 1;
        }
        proof {
            lemma_values_of_absent(frame.entries@, name@);
        }
        None
    }

    /// The environment, from `env` outwards, that holds `name`.
    fn find(&self, env: Environment, name: &String) -> (h: Option<usize>)
        requires
            self.wf(),
            self.holds(env),
        ensures
            h matches Some(i) ==> holder(self@, env.index as nat, name@) == Some(i as nat) && i < self@.len(),
            h is None ==> holder(self@, env.index as nat, name@) is None,
    {
        proof {
            self.lemma_view();
        }
        let mut current = env.index;
        loop
            invariant
                self.wf(),
                current < self@.len(),
                self@.len() == self.frames@.len(),
                forall|i: int| 0 <= i < self.frames@.len() ==> #[trigger] self@[i] == frame_view(self.frames@[i]),
                holder(self@, env.index as nat, name@) == holder(self@, current as nat, name@),
            decreases current,
        {
            if self.position_in(current, name).is_some() {
                return Some(current);
            }
            match self.frames[current].enclosing {
                Some(p) => {
                    assert(self@[current as int].enclosing == Some(p as nat));
                    current = p;
                },
                None => {
                    return None;
                },
            }
        }
    }

    /// The value of `name`, from the first environment, from `env` outwards,
    /// that holds it.
    pub fn lookup(&self, env: Environment, name: &str) -> (r: Result<&V, EnvironmentError>)
        requires
            self.wf(),
            self.holds(env),
        ensures
            match r {
                Ok(v) => value_seen(self@, env.index as nat, name@) == Some(*v),
                Err(EnvironmentError::UndefinedVariable(n)) => value_seen(self@, env.index as nat, name@) is None
                    && n@ == name@,
            },
    {
        proof {
            self.lemma_view();
        }
        let key = String::from_str(name);
        match self.find(env, &key) {
            Some(i) => match self.position_in(i, &key) {
                Some(k) => Ok(&self.frames[i].entries[k].1),
                None => {
                    proof {
                        lemma_holder_bounds(self@, env.index as nat, name@);
                    }
                    Err(EnvironmentError::UndefinedVariable(key))
                },
            },
            None => Err(EnvironmentError::UndefinedVariable(key)),
        }
    }

    /// Gives `name` the value `value` in the first environment, from `env`
    /// outwards, that holds it.
    pub fn assign(&mut self, env: Environment, name: &str, value: V) -> (r: Result<(), EnvironmentError>)
        requires
            old(self).wf(),
            old(self).holds(env),
        ensures
            final(self).wf(),
            match holder(old(self)@, env.index as nat, name@) {
                Some(h) => r is Ok && final(self)@ == defined(old(self)@, h, name@, value),
                None => {
                    &&& final(self)@ == old(self)@
                    &&& r matches Err(EnvironmentError::UndefinedVariable(n))
                    &&& n@ == name@
                },
            },
    {
        let key = String::from_str(name);
        match self.find(env, &key) {
            Some(i) => {
                self.define(Environment { index: i }, key, value);
                Ok(())
            },
            None => Err(EnvironmentError::UndefinedVariable(key)),
        }
    }

    /// The environment `distance` steps out from `env`, or the global one
    /// when there are fewer steps.
    pub fn ancestor(&self, env: Environment, distance: usize) -> (a: Environment)
        requires
            self.wf(),
            self.holds(env),
        ensures
            a.index == ancestor(self@, env.index as nat, distance as nat),
            self.holds(a),
    {
        proof {
            self.lemma_view();
        }
        let mut current = env.index;
        let mut steps: usize = 0;
        while steps < distance
            invariant
                self.wf(),
                steps <= distance,
                current < self@.len(),
                self@.len() == self.frames@.len(),
                forall|i: int| 0 <= i < self.frames@.len() ==> #[trigger] self@[i] == frame_view(self.frames@[i]),
                ancestor(self@, env.index as nat, distance as nat) == ancestor(self@, current as nat, (distance - steps) as nat),
            decreases distance - steps,
        {
            match self.frames[current].enclosing {
                Some(p) => {
                    assert(self@[current as int].enclosing == Some(p as nat));
                    current = p;
                    steps = steps + 1;
                },
                None => {
                    return Environment { index: current };
                },
            }
        }
        Environment { index: current }
    }

    /// Defines `name` as `value` in the environment `distance` steps out from
    /// `env`.
    pub fn assign_at(&mut self, env: Environment, distance: usize, name: &str, value: V) -> (r: Result<(), EnvironmentError>)
        requires
            old(self).wf(),
            old(self).holds(env),
        ensures
            final(self).wf(),
            r is Ok,
            final(self)@ == defined(old(self)@, ancestor(old(self)@, env.index as nat, distance as nat), name@, value),
    {
        let target = self.ancestor(env, distance);
        self.define(target, String::from_str(name), value);
        Ok(())
    }

    /// The value of `name` seen from the environment `distance` steps out
    /// from `env`.
    pub fn lookup_at(&self, env: Environment, distance: usize, name: &str) -> (r: Result<&V, EnvironmentError>)
        requires
            self.wf(),
            self.holds(env),
        ensures
            match r {
                Ok(v) => value_seen(self@, ancestor(self@, env.index as nat, distance as nat), name@) == Some(*v),
                Err(EnvironmentError::UndefinedVariable(n)) =>
                    value_seen(self@, ancestor(self@, env.index as nat, distance as nat), name@) is None && n@ == name@,
            },
    {
        let target = self.ancestor(env, distance);
        self.lookup(target, name)
    }
}

/// The value of the last definition of a name in a list of definitions.
proof fn lemma_values_of_last<V>(es: Seq<(String, V)>, name: Seq<char>, k: int)
    requires
        0 <= k < es.len(),
        es[k].0@ == name,
        forall|j: int| k < j < es.len() ==> #[trigger] es[j].0@ != name,
    ensures
        values_of(es).dom().contains(name),
        values_of(es)[name] == es[k].1,
    decreases es.len(),
{
    if k < es.len() - 1 {
        lemma_values_of_last(es.drop_last(), name, k);
    }
}

/// A name without definitions has no value.
proof fn lemma_values_of_absent<V>(es: Seq<(String, V)>, name: Seq<char>)
    requires
        forall|j: int| 0 <= j < es.len() ==> #[trigger] es[j].0@ != name,
    ensures
        !values_of(es).dom().contains(name),
    decreases es.len(),
{
    if es.len() > 0 {
        lemma_values_of_absent(es.drop_last(), name);
    }
}

/// Looking up a name right after defining it in an environment gives the
/// value defined, whatever the enclosing environments hold: a definition
/// shadows the enclosing ones.
pub proof fn law_lookup_after_define<V>(fs: Seq<FrameView<V>>, i: nat, name: Seq<char>, value: V)
    requires
        well_formed(fs),
        i < fs.len(),
    ensures
        value_seen(defined(fs, i, name, value), i, name) == Some(value),
{
}

/// Defining a variable in an environment changes nothing seen from the
/// environments created before it, such as those that enclose it.
pub proof fn law_define_leaves_earlier_environments<V>(fs: Seq<FrameView<V>>, i: nat, name: Seq<char>, value: V, j: nat, other: Seq<char>)
    requires
        well_formed(fs),
        i < fs.len(),
        j < i,
    ensures
        value_seen(defined(fs, i, name, value), j, other) == value_seen(fs, j, other),
    decreases j,
{
    let gs = defined(fs, i, name, value);
    assert(gs[j as int] == fs[j as int]);
    if !fs[j as int].values.dom().contains(other) {
        if let Some(p) = fs[j as int].enclosing {
            if p < j {
                law_define_leaves_earlier_environments(fs, i, name, value, p, other);
            }
        }
    }
}

/// A name not defined in an environment is looked up in the environment
/// that encloses it.
pub proof fn law_lookup_falls_through_to_enclosing<V>(fs: Seq<FrameView<V>>, i: nat, name: Seq<char>)
    requires
        well_formed(fs),
        0 < i < fs.len(),
        !fs[i as int].values.dom().contains(name),
    ensures
        value_seen(fs, i, name) == value_seen(fs, enclosing_of(fs, i), name),
{
    assert(fs[i as int].enclosing matches Some(p) && p < i);
}

/// After assigning a value to a variable that an environment sees, looking
/// the variable up from that environment gives the value assigned.
pub proof fn law_lookup_after_assign<V>(fs: Seq<FrameView<V>>, i: nat, name: Seq<char>, value: V)
    requires
        well_formed(fs),
        i < fs.len(),
        holder(fs, i, name) is Some,
    ensures
        value_seen(defined(fs, holder(fs, i, name)->Some_0, name, value), i, name) == Some(value),
    decreases i,
{
    let h = holder(fs, i, name)->Some_0;
    lemma_holder_bounds(fs, i, name);
    let gs = defined(fs, h, name, value);
    if h != i {
        assert(!fs[i as int].values.dom().contains(name));
        assert(gs[i as int] == fs[i as int]);
        if let Some(p) = fs[i as int].enclosing {
            if p < i {
                law_lookup_after_assign(fs, p, name, value);
            }
        }
    }
}

/// Assigning to a variable that an environment sees, then looking it up from
/// that environment, gives the value assigned; a variable that it does not
/// see stays unseen, as `Environments::assign` refuses it and changes
/// nothing.
pub proof fn law_assign_then_lookup<V>(fs: Seq<FrameView<V>>, i: nat, name: Seq<char>, value: V)
    requires
        well_formed(fs),
        i < fs.len(),
    ensures
        match holder(fs, i, name) {
            Some(h) => value_seen(defined(fs, h, name, value), i, name) == Some(value),
            None => value_seen(fs, i, name) is None,
        },
{
    if holder(fs, i, name) is Some {
        law_lookup_after_assign(fs, i, name, value);
    }
}

} // verus!
