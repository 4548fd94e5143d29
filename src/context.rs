//! The runtime context of the scene interpreter: a stack of local scopes, one
//! for each active function call, a global scope, and the table of defined
//! functions.
use vstd::prelude::*;
use crate::scene::SceneError;
use crate::text::str_eq;

verus! {

/// The map that a list of bindings stands for: a later binding of a name
/// replaces an earlier one.
pub open spec fn map_of<V>(s: Seq<(String, V)>) -> Map<Seq<char>, V>
    decreases s.len(),
{
    if s.len() == 0 {
        Map::empty()
    } else {
        map_of(s.drop_last()).insert(s.last().0@, s.last().1)
    }
}

/// No name is bound twice.
pub open spec fn unique_names<V>(s: Seq<(String, V)>) -> bool {
    forall|i: int, j: int| 0 <= i < j < s.len() ==> s[i].0@ != s[j].0@
}

proof fn lemma_map_of_dom<V>(s: Seq<(String, V)>, k: Seq<char>)
    ensures
        map_of(s).contains_key(k) <==> exists|i: int| 0 <= i < s.len() && s[i].0@ == k,
    decreases s.len(),
{
    if s.len() > 0 {
        let d = s.drop_last();
        lemma_map_of_dom(d, k);
        if map_of(d).contains_key(k) {
            let i = choose|i: int| 0 <= i < d.len() && d[i].0@ == k;
            assert(s[i].0@ == k);
        }
        if exists|i: int| 0 <= i < s.len() && s[i].0@ == k {
            let i = choose|i: int| 0 <= i < s.len() && s[i].0@ == k;
            if i < s.len() - 1 {
                assert(d[i].0@ == k);
            }
        }
    }
}

proof fn lemma_map_of_value<V>(s: Seq<(String, V)>, i: int)
    requires
        unique_names(s),
        0 <= i < s.len(),
    ensures
        map_of(s).contains_key(s[i].0@),
        map_of(s)[s[i].0@] == s[i].1,
    decreases s.len(),
{
    let d = s.drop_last();
    if i < s.len() - 1 {
        assert(unique_names(d));
        lemma_map_of_value(d, i);
        assert(d[i] == s[i]);
    }
}

proof fn lemma_map_of_update<V>(s: Seq<(String, V)>, i: int, e: (String, V))
    requires
        unique_names(s),
        0 <= i < s.len(),
        e.0@ == s[i].0@,
    ensures
        unique_names(s.update(i, e)),
        map_of(s.update(i, e)) =~= map_of(s).insert(e.0@, e.1),
    decreases s.len(),
{
    let u = s.update(i, e);
    let d = s.drop_last();
    assert(unique_names(u)) by {
        assert forall|a: int, b: int| 0 <= a < b < u.len() implies u[a].0@ != u[b].0@ by {
            assert(s[a].0@ != s[b].0@);
        }
    }
    if i == s.len() - 1 {
        assert(u.drop_last() =~= d);
    } else {
        assert(u.drop_last() =~= d.update(i, e));
        assert(unique_names(d));
        lemma_map_of_update(d, i, e);
        assert(s.last().0@ != s[i].0@);
    }
}

proof fn lemma_map_of_push<V>(s: Seq<(String, V)>, e: (String, V))
    ensures
        map_of(s.push(e)) == map_of(s).insert(e.0@, e.1),
{
    assert(s.push(e).drop_last() =~= s);
}

/// The variables of one scope.
pub struct Bindings<V> {
    entries: Vec<(String, V)>,
}

impl<V> View for Bindings<V> {
    type V = Map<Seq<char>, V>;

    closed spec fn view(&self) -> Map<Seq<char>, V> {
        map_of(self.entries@)
    }
}

impl<V> Bindings<V> {
    pub closed spec fn wf(&self) -> bool {
        unique_names(self.entries@)
    }

    /// A scope that binds nothing.
    pub fn new() -> (r: Self)
        ensures
            r.wf(),
            r@ == Map::<Seq<char>, V>::empty(),
    {
        Bindings { entries: Vec::new() }
    }

    fn find(&self, id: &str) -> (r: Option<usize>)
        requires
            self.wf(),
        ensures
            r is None ==> !self@.contains_key(id@),
            r matches Some(i) ==> i < self.entries@.len() && self.entries@[i as int].0@ == id@,
    {
        let mut i: usize = 0;
        while i < self.entries.len()
            invariant
                i <= self.entries@.len(),
                forall|j: int| 0 <= j < i ==> self.entries@[j].0@ != id@,
            decreases self.entries@.len() - i,
        {
            if str_eq(self.entries[i].0.as_str(), id) {
                return Some(i);
            }
            i = i + 1;
        }
        proof {
            lemma_map_of_dom(self.entries@, id@);
        }
        None
    }

    /// The value bound to `id`.
    pub fn get(&self, id: &str) -> (r: Option<&V>)
        requires
            self.wf(),
        ensures
            r is Some <==> self@.contains_key(id@),
            r matches Some(v) ==> *v == self@[id@],
    {
        match self.find(id) {
            Some(i) => {
                proof {
                    lemma_map_of_value(self.entries@, i as int);
                }
                Some(&self.entries[i].1)
            },
            None => None,
        }
    }

    /// Binds `id` to `value`, replacing an earlier binding of `id`.
    pub fn insert(&mut self, id: String, value: V)
        requires
            old(self).wf(),
        ensures
            final(self).wf(),
            final(self)@ == old(self)@.insert(id@, value),
    {
        match self.find(id.as_str()) {
            Some(i) => {
                proof {
                    lemma_map_of_update(self.entries@, i as int, (id, value));
                }
                self.entries.set(i, (id, value));
            },
            None => {
                proof {
                    lemma_map_of_push(self.entries@, (id, value));
                    lemma_map_of_dom(self.entries@, id@);
                    let pushed = self.entries@.push((id, value));
                    assert forall|a: int, b: int| 0 <= a < b < pushed.len() implies pushed[a].0@
                        != pushed[b].0@ by {
                        if b == self.entries@.len() {
                            assert(self.entries@[a].0@ != id@);
                        } else {
                            assert(self.entries@[a].0@ != self.entries@[b].0@);
                        }
                    }
                }
                self.entries.push((id, value));
            },
        }
    }
}

/// A function of the scene language: its parameter names and its body.
pub struct Function<B> {
    pub param_list: Vec<String>,
    pub body: B,
}

/// The scope that a call opens: each parameter bound to the argument at its
/// position; of two parameters with one name, the later one wins.
pub open spec fn bind_params<V>(params: Seq<String>, values: Seq<V>) -> Map<Seq<char>, V>
    decreases params.len(),
{
    if params.len() == 0 || values.len() == 0 {
        Map::empty()
    } else {
        bind_params(params.drop_last(), values.drop_last()).insert(params.last()@, values.last())
    }
}

/// Variables and functions of a running scene script. Values have type `V`;
/// function bodies type `B`.
pub struct SceneContext<V, B> {
    stack: Vec<Bindings<V>>,
    globals: Bindings<V>,
    functions: Bindings<Function<B>>,
}

impl<V, B> SceneContext<V, B> {
    /// The local scopes, outermost first; the last is the active one.
    pub closed spec fn frames(&self) -> Seq<Map<Seq<char>, V>> {
        self.stack@.map_values(|b: Bindings<V>| b@)
    }

    /// The global scope.
    pub closed spec fn global_scope(&self) -> Map<Seq<char>, V> {
        self.globals@
    }

    /// The parameter names of each defined function.
    pub closed spec fn function_params(&self) -> Map<Seq<char>, Seq<String>> {
        self.functions@.map_values(|f: Function<B>| f.param_list@)
    }

    pub closed spec fn wf(&self) -> bool {
        &&& forall|i: int| 0 <= i < self.stack@.len() ==> (#[trigger] self.stack@[i]).wf()
        &&& self.globals.wf()
        &&& self.functions.wf()
    }

    /// The scope that unqualified reads and local assignments use: the
    /// innermost call's, or the global scope outside any call.
    pub open spec fn active_scope(&self) -> Map<Seq<char>, V> {
        if self.frames().len() > 0 {
            self.frames().last()
        } else {
            self.global_scope()
        }
    }

    /// A context with no variables and no functions.
    pub fn new() -> (r: Self)
        ensures
            r.wf(),
            r.frames().len() == 0,
            r.global_scope() == Map::<Seq<char>, V>::empty(),
            r.function_params() == Map::<Seq<char>, Seq<String>>::empty(),
    {
        let r = SceneContext { stack: Vec::new(), globals: Bindings::new(), functions: Bindings::new() };
        proof {
            assert(r.function_params() =~= Map::<Seq<char>, Seq<String>>::empty());
        }
        r
    }

    /// The number of active calls.
    pub fn depth(&self) -> (r: usize)
        ensures
            r == self.frames().len(),
    {
        self.stack.len()
    }

    /// Assigns `value` to `id`: in the active scope when `local` holds, else
    /// in the global scope.
    pub fn assign(&mut self, local: bool, id: String, value: V)
        requires
            old(self).wf(),
        ensures
            final(self).wf(),
            final(self).function_params() == old(self).function_params(),
            local && old(self).frames().len() > 0 ==> final(self).frames() == old(
                self,
            ).frames().update(
                old(self).frames().len() - 1,
                old(self).frames().last().insert(id@, value),
            ) && final(self).global_scope() == old(self).global_scope(),
            !(local && old(self).frames().len() > 0) ==> final(self).frames() == old(
                self,
            ).frames() && final(self).global_scope() == old(self).global_scope().insert(
                id@,
                value,
            ),
    {
        let n = self.stack.len();
        if local && n > 0 {
            let mut top = self.stack.pop().unwrap();
            top.insert(id, value);
            self.stack.push(top);
            proof {
                assert(self.frames() =~= old(self).frames().update(
                    n - 1,
                    old(self).frames().last().insert(id@, value),
                ));
                assert forall|i: int| 0 <= i < self.stack@.len() implies (
                #[trigger] self.stack@[i]).wf() by {
                    if i < n - 1 {
                        assert(self.stack@[i] == old(self).stack@[i]);
                    }
                }
            }
        } else {
            self.globals.insert(id, value);
        }
    }

    /// The value of `id`: from the active scope, else from the global scope.
    pub fn lookup(&self, id: &str) -> (r: Result<&V, SceneError>)
        requires
            self.wf(),
        ensures
            r matches Ok(v) ==> (if self.active_scope().contains_key(id@) {
                *v == self.active_scope()[id@]
            } else {
                *v == self.global_scope()[id@]
            }),
            r is Err <==> !self.active_scope().contains_key(id@) && !self.global_scope().contains_key(
                id@,
            ),
            r matches Err(e) ==> e == SceneError::UnknownVariable,
    {
        let n = self.stack.len();
        if n > 0 {
            if let Some(v) = self.stack[n - 1].get(id) {
                return Ok(v);
            }
        }
        match self.globals.get(id) {
            Some(v) => Ok(v),
            None => Err(SceneError::UnknownVariable),
        }
    }

    /// Defines `id`, replacing an earlier function of that name.
    pub fn add_function(&mut self, id: String, function: Function<B>)
        requires
            old(self).wf(),
        ensures
            final(self).wf(),
            final(self).frames() == old(self).frames(),
            final(self).global_scope() == old(self).global_scope(),
            final(self).function_params() == old(self).function_params().insert(
                id@,
                function.param_list@,
            ),
    {
        let ghost params = function.param_list@;
        self.functions.insert(id, function);
        proof {
            assert(self.function_params() =~= old(self).function_params().insert(id@, params));
        }
    }

    /// The function named `id`.
    pub fn function(&self, id: &str) -> (r: Option<&Function<B>>)
        requires
            self.wf(),
        ensures
            r is Some <==> self.function_params().contains_key(id@),
            r matches Some(f) ==> f.param_list@ == self.function_params()[id@],
    {
        self.functions.get(id)
    }

    /// Opens the scope of a call of `id` with `args`, binding each parameter
    /// to its argument. Fails when no function is named `id`, or when it has
    /// a different number of parameters.
    pub fn enter_call(&mut self, id: &str, args: Vec<V>) -> (r: Result<(), SceneError>)
        requires
            old(self).wf(),
        ensures
            final(self).wf(),
            final(self).function_params() == old(self).function_params(),
            final(self).global_scope() == old(self).global_scope(),
            !old(self).function_params().contains_key(id@) ==> r == Err::<(), SceneError>(
                SceneError::UnknownFunction,
            ),
            old(self).function_params().contains_key(id@) && old(self).function_params()[id@].len()
                != args@.len() ==> r == Err::<(), SceneError>(SceneError::ArityMismatch),
            r is Ok <==> old(self).function_params().contains_key(id@) && old(
                self,
            ).function_params()[id@].len() == args@.len(),
            r is Err ==> final(self).frames() == old(self).frames(),
            r is Ok ==> old(self).function_params().contains_key(id@) && final(self).frames()
                == old(self).frames().push(bind_params(old(self).function_params()[id@], args@)),
    {
        let frame = match self.functions.get(id) {
            None => {
                return Err(SceneError::UnknownFunction);
            },
            Some(function) => {
                let params = &function.param_list;
                if params.len() != args.len() {
                    return Err(SceneError::ArityMismatch);
                }
                let ghost all_args = args@;
                let mut args = args;
                let mut frame: Bindings<V> = Bindings::new();
                let mut i: usize = 0;
                while i < params.len()
                    invariant
                        params@.len() == all_args.len(),
                        i <= params@.len(),
                        args@ == all_args.skip(i as int),
                        frame.wf(),
                        frame@ == bind_params(params@.take(i as int), all_args.take(i as int)),
                    decreases params@.len() - i,
                {
                    let value = args.remove(0);
                    let name = params[i].clone();
                    proof {
                        assert(params@.take(i + 1).drop_last() =~= params@.take(i as int));
                        assert(all_args.take(i + 1).drop_last() =~= all_args.take(i as int));
                        assert(value == all_args[i as int]);
                        assert(args@ =~= all_args.skip(i + 1));
                    }
                    frame.insert(name, value);
                    i = i + 1;
                }
                proof {
                    assert(params@.take(i as int) =~= params@);
                    assert(all_args.take(i as int) =~= all_args);
                }
                frame
            },
        };
        self.stack.push(frame);
        proof {
            assert(self.frames() =~= old(self).frames().push(
                bind_params(old(self).function_params()[id@], args@),
            ));
            assert forall|i: int| 0 <= i < self.stack@.len() implies (
            #[trigger] self.stack@[i]).wf() by {
                if i < self.stack@.len() - 1 {
                    assert(self.stack@[i] == old(self).stack@[i]);
                }
            }
        }
        Ok(())
    }

    /// Closes the innermost call's scope.
    pub fn leave_call(&mut self)
        requires
            old(self).wf(),
            old(self).frames().len() > 0,
        ensures
            final(self).wf(),
            final(self).frames() == old(self).frames().drop_last(),
            final(self).global_scope() == old(self).global_scope(),
            final(self).function_params() == old(self).function_params(),
    {
        self.stack.pop();
        proof {
            assert(self.frames() =~= old(self).frames().drop_last());
        }
    }
}

} // verus!
