//! The mutable scene.
//!
//! The engine reads and writes an abstract object record (a position) and an
//! abstract variable record (a current value), both looked up by identifier,
//! and reads the pointer device's position. Identifiers are unique within
//! their table, and a variable never holds a memory reference.

use vstd::prelude::*;

use crate::num::Num;
use crate::value::{Id, Val, Value};

verus! {

/// An object of the scene: something with a position.
#[derive(Debug)]
pub struct Object {
    pub id: Id,
    pub x: Num,
    pub y: Num,
}

/// The mathematical form of an object.
pub struct ObjV {
    pub id: Seq<char>,
    pub x: Num,
    pub y: Num,
}

impl View for Object {
    type V = ObjV;

    open spec fn view(&self) -> ObjV {
        ObjV { id: self.id@, x: self.x, y: self.y }
    }
}

/// A named variable with its current value.
#[derive(Debug)]
pub struct Variable {
    pub id: Id,
    pub value: Value,
}

/// The mathematical form of a variable.
pub struct VarV {
    pub id: Seq<char>,
    pub value: Val,
}

impl View for Variable {
    type V = VarV;

    open spec fn view(&self) -> VarV {
        VarV { id: self.id@, value: self.value@ }
    }
}

/// The pointer device's position.
#[derive(Clone, Copy, Debug)]
pub struct Mouse {
    pub x: Num,
    pub y: Num,
}

/// The mathematical form of the scene.
pub struct SceneV {
    pub objects: Seq<ObjV>,
    pub variables: Seq<VarV>,
    pub mouse: Mouse,
}

/// The first object of an identifier.
pub open spec fn obj_lookup(s: Seq<ObjV>, id: Seq<char>) -> Option<ObjV>
    decreases s.len(),
{
    if s.len() == 0 {
        None
    } else if s[0].id == id {
        Some(s[0])
    } else {
        obj_lookup(s.drop_first(), id)
    }
}

/// The index of the first object of an identifier, or a negative number.
pub open spec fn obj_find(s: Seq<ObjV>, id: Seq<char>) -> int
    decreases s.len(),
{
    if s.len() == 0 {
        -1
    } else if s[0].id == id {
        0
    } else if obj_find(s.drop_first(), id) < 0 {
        -1
    } else {
        1 + obj_find(s.drop_first(), id)
    }
}

/// The table after moving an object; unchanged when the identifier is
/// absent.
pub open spec fn objs_set_pos(s: Seq<ObjV>, id: Seq<char>, x: Num, y: Num) -> Seq<ObjV> {
    let i = obj_find(s, id);
    if i >= 0 {
        s.update(i, ObjV { id: s[i].id, x, y })
    } else {
        s
    }
}

/// The first variable of an identifier, as its value.
pub open spec fn var_lookup(s: Seq<VarV>, id: Seq<char>) -> Option<Val>
    decreases s.len(),
{
    if s.len() == 0 {
        None
    } else if s[0].id == id {
        Some(s[0].value)
    } else {
        var_lookup(s.drop_first(), id)
    }
}

/// The index of the first variable of an identifier, or a negative number.
pub open spec fn var_find(s: Seq<VarV>, id: Seq<char>) -> int
    decreases s.len(),
{
    if s.len() == 0 {
        -1
    } else if s[0].id == id {
        0
    } else if var_find(s.drop_first(), id) < 0 {
        -1
    } else {
        1 + var_find(s.drop_first(), id)
    }
}

/// The table after writing a variable; unchanged when the identifier is
/// absent.
pub open spec fn vars_set(s: Seq<VarV>, id: Seq<char>, value: Val) -> Seq<VarV> {
    let i = var_find(s, id);
    if i >= 0 {
        s.update(i, VarV { id: s[i].id, value })
    } else {
        s
    }
}

/// Object identifiers are unique.
pub open spec fn objs_unique(s: Seq<ObjV>) -> bool {
    forall|i: int, j: int| 0 <= i < j < s.len() ==> (#[trigger] s[i].id) != (#[trigger] s[j].id)
}

/// Variable identifiers are unique and no variable holds a memory reference.
pub open spec fn vars_wf(s: Seq<VarV>) -> bool {
    &&& forall|i: int, j: int|
        0 <= i < j < s.len() ==> (#[trigger] s[i].id) != (#[trigger] s[j].id)
    &&& forall|i: int| 0 <= i < s.len() ==> !(#[trigger] s[i].value).is_ref()
}

/// A well-formed scene.
pub open spec fn scene_wf(s: SceneV) -> bool {
    objs_unique(s.objects) && vars_wf(s.variables)
}

/// `obj_find` names the first object of an identifier, when there is one.
pub proof fn lemma_obj_find(s: Seq<ObjV>, id: Seq<char>)
    ensures
        obj_find(s, id) < 0 ==> forall|j: int| 0 <= j < s.len() ==> (#[trigger] s[j]).id != id,
        obj_find(s, id) >= 0 ==> {
            &&& obj_find(s, id) < s.len()
            &&& s[obj_find(s, id)].id == id
            &&& forall|j: int| 0 <= j < obj_find(s, id) ==> (#[trigger] s[j]).id != id
        },
    decreases s.len(),
{
    if s.len() > 0 && s[0].id != id {
        lemma_obj_find(s.drop_first(), id);
        let sub = obj_find(s.drop_first(), id);
        if sub < 0 {
            assert forall|j: int| 0 <= j < s.len() implies (#[trigger] s[j]).id != id by {
                if j > 0 {
                    assert(s[j] == s.drop_first()[j - 1]);
                }
            }
        } else {
            assert(s[1 + sub] == s.drop_first()[sub]);
            assert forall|j: int| 0 <= j < obj_find(s, id) implies (#[trigger] s[j]).id != id by {
                if j > 0 {
                    assert(s[j] == s.drop_first()[j - 1]);
                }
            }
        }
    }
}

/// `var_find` names the first variable of an identifier, when there is one.
pub proof fn lemma_var_find(s: Seq<VarV>, id: Seq<char>)
    ensures
        var_find(s, id) < 0 ==> forall|j: int| 0 <= j < s.len() ==> (#[trigger] s[j]).id != id,
        var_find(s, id) >= 0 ==> {
            &&& var_find(s, id) < s.len()
            &&& s[var_find(s, id)].id == id
            &&& forall|j: int| 0 <= j < var_find(s, id) ==> (#[trigger] s[j]).id != id
        },
    decreases s.len(),
{
    if s.len() > 0 && s[0].id != id {
        lemma_var_find(s.drop_first(), id);
        let sub = var_find(s.drop_first(), id);
        if sub < 0 {
            assert forall|j: int| 0 <= j < s.len() implies (#[trigger] s[j]).id != id by {
                if j > 0 {
                    assert(s[j] == s.drop_first()[j - 1]);
                }
            }
        } else {
            assert(s[1 + sub] == s.drop_first()[sub]);
            assert forall|j: int| 0 <= j < var_find(s, id) implies (#[trigger] s[j]).id != id by {
                if j > 0 {
                    assert(s[j] == s.drop_first()[j - 1]);
                }
            }
        }
    }
}

/// When an object matches at `i` and none before, the lookup yields it.
proof fn lemma_obj_at(s: Seq<ObjV>, id: Seq<char>, i: int)
    requires
        0 <= i < s.len(),
        s[i].id == id,
        forall|j: int| 0 <= j < i ==> (#[trigger] s[j]).id != id,
    ensures
        obj_lookup(s, id) == Some(s[i]),
    decreases i,
{
    if i > 0 {
        lemma_obj_at(s.drop_first(), id, i - 1);
    }
}

/// When no object matches, the lookup yields nothing.
proof fn lemma_obj_none(s: Seq<ObjV>, id: Seq<char>)
    requires
        forall|j: int| 0 <= j < s.len() ==> (#[trigger] s[j]).id != id,
    ensures
        obj_lookup(s, id) == None::<ObjV>,
    decreases s.len(),
{
    if s.len() > 0 {
        lemma_obj_none(s.drop_first(), id);
    }
}

/// When a variable matches at `i` and none before, the lookup yields it.
proof fn lemma_var_at(s: Seq<VarV>, id: Seq<char>, i: int)
    requires
        0 <= i < s.len(),
        s[i].id == id,
        forall|j: int| 0 <= j < i ==> (#[trigger] s[j]).id != id,
    ensures
        var_lookup(s, id) == Some(s[i].value),
    decreases i,
{
    if i > 0 {
        lemma_var_at(s.drop_first(), id, i - 1);
    }
}

/// When no variable matches, the lookup yields nothing.
proof fn lemma_var_none(s: Seq<VarV>, id: Seq<char>)
    requires
        forall|j: int| 0 <= j < s.len() ==> (#[trigger] s[j]).id != id,
    ensures
        var_lookup(s, id) == None::<Val>,
    decreases s.len(),
{
    if s.len() > 0 {
        lemma_var_none(s.drop_first(), id);
    }
}

/// `obj_lookup` agrees with `obj_find`.
pub proof fn lemma_obj_lookup_found(s: Seq<ObjV>, id: Seq<char>)
    ensures
        obj_find(s, id) >= 0 ==> obj_lookup(s, id) == Some(s[obj_find(s, id)]),
        obj_find(s, id) < 0 ==> obj_lookup(s, id) is None,
{
    lemma_obj_find(s, id);
    if obj_find(s, id) >= 0 {
        lemma_obj_at(s, id, obj_find(s, id));
    } else {
        lemma_obj_none(s, id);
    }
}

/// `var_lookup` agrees with `var_find`.
pub proof fn lemma_var_lookup_found(s: Seq<VarV>, id: Seq<char>)
    ensures
        var_find(s, id) >= 0 ==> var_lookup(s, id) == Some(s[var_find(s, id)].value),
        var_find(s, id) < 0 ==> var_lookup(s, id) is None,
{
    lemma_var_find(s, id);
    if var_find(s, id) >= 0 {
        lemma_var_at(s, id, var_find(s, id));
    } else {
        lemma_var_none(s, id);
    }
}

/// Replacing the first object of an identifier, keeping the identifier,
/// changes the lookup there alone.
proof fn lemma_obj_update(s: Seq<ObjV>, i: int, o: ObjV, id: Seq<char>)
    requires
        0 <= i < s.len(),
        s[i].id == o.id,
        forall|j: int| 0 <= j < i ==> (#[trigger] s[j]).id != o.id,
    ensures
        obj_lookup(s.update(i, o), id) == if o.id == id {
            Some(o)
        } else {
            obj_lookup(s, id)
        },
    decreases i,
{
    if i == 0 {
        if o.id != id {
            assert(s.update(0, o).drop_first() =~= s.drop_first());
        }
    } else {
        assert(s.update(i, o)[0] == s[0]);
        if s[0].id != id {
            assert(s.update(i, o).drop_first() =~= s.drop_first().update(i - 1, o));
            lemma_obj_update(s.drop_first(), i - 1, o, id);
        }
    }
}

/// Replacing the first variable of an identifier, keeping the identifier,
/// changes the lookup there alone.
proof fn lemma_var_update(s: Seq<VarV>, i: int, v: VarV, id: Seq<char>)
    requires
        0 <= i < s.len(),
        s[i].id == v.id,
        forall|j: int| 0 <= j < i ==> (#[trigger] s[j]).id != v.id,
    ensures
        var_lookup(s.update(i, v), id) == if v.id == id {
            Some(v.value)
        } else {
            var_lookup(s, id)
        },
    decreases i,
{
    if i == 0 {
        if v.id != id {
            assert(s.update(0, v).drop_first() =~= s.drop_first());
        }
    } else {
        assert(s.update(i, v)[0] == s[0]);
        if s[0].id != id {
            assert(s.update(i, v).drop_first() =~= s.drop_first().update(i - 1, v));
            lemma_var_update(s.drop_first(), i - 1, v, id);
        }
    }
}

/// What moving an object does to every lookup, and to well-formedness.
pub proof fn lemma_objs_set_pos(s: Seq<ObjV>, id: Seq<char>, x: Num, y: Num)
    requires
        objs_unique(s),
    ensures
        forall|k: Seq<char>|
            #[trigger] obj_lookup(objs_set_pos(s, id, x, y), k) == if k == id && obj_lookup(
                s,
                k,
            ) is Some {
                Some(ObjV { id: obj_lookup(s, k)->Some_0.id, x, y })
            } else {
                obj_lookup(s, k)
            },
        objs_unique(objs_set_pos(s, id, x, y)),
{
    lemma_obj_find(s, id);
    lemma_obj_lookup_found(s, id);
    let i = obj_find(s, id);
    if i >= 0 {
        let o = ObjV { id: s[i].id, x, y };
        assert forall|k: Seq<char>|
            #[trigger] obj_lookup(objs_set_pos(s, id, x, y), k) == if k == id && obj_lookup(
                s,
                k,
            ) is Some {
                Some(ObjV { id: obj_lookup(s, k)->Some_0.id, x, y })
            } else {
                obj_lookup(s, k)
            } by {
            lemma_obj_update(s, i, o, k);
        }
    }
}

/// What writing a variable does to every lookup, and to well-formedness.
pub proof fn lemma_vars_set(s: Seq<VarV>, id: Seq<char>, value: Val)
    requires
        vars_wf(s),
    ensures
        forall|k: Seq<char>|
            #[trigger] var_lookup(vars_set(s, id, value), k) == if k == id && var_lookup(
                s,
                k,
            ) is Some {
                Some(value)
            } else {
                var_lookup(s, k)
            },
        !value.is_ref() ==> vars_wf(vars_set(s, id, value)),
{
    lemma_var_find(s, id);
    lemma_var_lookup_found(s, id);
    let i = var_find(s, id);
    if i >= 0 {
        let v = VarV { id: s[i].id, value };
        assert forall|k: Seq<char>|
            #[trigger] var_lookup(vars_set(s, id, value), k) == if k == id && var_lookup(
                s,
                k,
            ) is Some {
                Some(value)
            } else {
                var_lookup(s, k)
            } by {
            lemma_var_update(s, i, v, k);
        }
    }
}

/// Appending an object of a fresh identifier changes the lookup there alone.
proof fn lemma_obj_push(s: Seq<ObjV>, o: ObjV, id: Seq<char>)
    requires
        forall|j: int| 0 <= j < s.len() ==> (#[trigger] s[j]).id != o.id,
    ensures
        obj_lookup(s.push(o), id) == if o.id == id {
            Some(o)
        } else {
            obj_lookup(s, id)
        },
    decreases s.len(),
{
    assert(s.push(o).len() == s.len() + 1);
    if s.len() == 0 {
        assert(s.push(o)[0] == o);
        if o.id != id {
            assert(s.push(o).drop_first() =~= Seq::<ObjV>::empty());
            assert(obj_lookup(Seq::<ObjV>::empty(), id) is None);
        }
    } else {
        assert(s.push(o)[0] == s[0]);
        if s[0].id != id {
            assert(s.push(o).drop_first() =~= s.drop_first().push(o));
            assert(forall|j: int|
                0 <= j < s.drop_first().len() ==> #[trigger] s.drop_first()[j] == s[j + 1]);
            lemma_obj_push(s.drop_first(), o, id);
        }
    }
}

/// Appending a variable of a fresh identifier changes the lookup there
/// alone.
proof fn lemma_var_push(s: Seq<VarV>, v: VarV, id: Seq<char>)
    requires
        forall|j: int| 0 <= j < s.len() ==> (#[trigger] s[j]).id != v.id,
    ensures
        var_lookup(s.push(v), id) == if v.id == id {
            Some(v.value)
        } else {
            var_lookup(s, id)
        },
    decreases s.len(),
{
    assert(s.push(v).len() == s.len() + 1);
    if s.len() == 0 {
        assert(s.push(v)[0] == v);
        if v.id != id {
            assert(s.push(v).drop_first() =~= Seq::<VarV>::empty());
            assert(var_lookup(Seq::<VarV>::empty(), id) is None);
        }
    } else {
        assert(s.push(v)[0] == s[0]);
        if s[0].id != id {
            assert(s.push(v).drop_first() =~= s.drop_first().push(v));
            assert(forall|j: int|
                0 <= j < s.drop_first().len() ==> #[trigger] s.drop_first()[j] == s[j + 1]);
            lemma_var_push(s.drop_first(), v, id);
        }
    }
}

/// The scene: the object table, the variable table, and the pointer.
#[derive(Debug)]
pub struct Scene {
    pub objects: Vec<Object>,
    pub variables: Vec<Variable>,
    pub mouse: Mouse,
}

impl View for Scene {
    type V = SceneV;

    open spec fn view(&self) -> SceneV {
        SceneV {
            objects: self.objects@.map_values(|o: Object| o@),
            variables: self.variables@.map_values(|v: Variable| v@),
            mouse: self.mouse,
        }
    }
}

impl Scene {
    /// An empty scene with the pointer at the origin.
    pub fn new() -> (r: Scene)
        ensures
            r@.objects =~= Seq::<ObjV>::empty(),
            r@.variables =~= Seq::<VarV>::empty(),
            r@.mouse.x.raw == 0 && r@.mouse.y.raw == 0,
            scene_wf(r@),
    {
        Scene {
            objects: Vec::new(),
            variables: Vec::new(),
            mouse: Mouse { x: Num { raw: 0 }, y: Num { raw: 0 } },
        }
    }

    /// The index of the first object of an identifier.
    fn find_obj(&self, id: &Id) -> (r: Option<usize>)
        ensures
            match r {
                Some(i) => i == obj_find(self@.objects, id@),
                None => obj_find(self@.objects, id@) < 0,
            },
    {
        proof {
            lemma_obj_find(self@.objects, id@);
        }
        let n: usize = self.objects.len();
        let mut i: usize = 0;
        while i < n
            invariant
                i <= n,
                n == self@.objects.len(),
                self@.objects == self.objects@.map_values(|o: Object| o@),
                forall|j: int| 0 <= j < i ==> (#[trigger] self@.objects[j]).id != id@,
                obj_find(self@.objects, id@) >= 0 ==> {
                    &&& obj_find(self@.objects, id@) < self@.objects.len()
                    &&& self@.objects[obj_find(self@.objects, id@)].id == id@
                },
                obj_find(self@.objects, id@) < 0 ==> forall|j: int|
                    0 <= j < self@.objects.len() ==> (#[trigger] self@.objects[j]).id != id@,
            decreases n - i,
        {
            if self.objects[i].id.id_eq(id) {
                proof {
                    assert(self@.objects[i as int] == self.objects@[i as int]@);
                    lemma_obj_find(self@.objects, id@);
                    let mf = obj_find(self@.objects, id@);
                    assert(mf >= 0);
                    if mf < i as int {
                        assert(self@.objects[mf].id != id@);
                    }
                    assert(i as int == mf);
                }
                return Some(i);
            }
            i = i + 1;
        }
        None
    }

    /// The position of the object of an identifier.
    pub fn obj_pos(&self, id: &Id) -> (r: Option<(Num, Num)>)
        ensures
            match r {
                Some(p) => obj_lookup(self@.objects, id@) matches Some(o) && o.x == p.0 && o.y
                    == p.1,
                None => obj_lookup(self@.objects, id@) is None,
            },
    {
        proof {
            lemma_obj_find(self@.objects, id@);
            lemma_obj_lookup_found(self@.objects, id@);
        }
        match self.find_obj(id) {
            Some(i) => {
                proof {
                    assert(self@.objects[i as int] == self.objects@[i as int]@);
                }
                Some((self.objects[i].x, self.objects[i].y))
            },
            None => None,
        }
    }

    /// Moves the object of an identifier to a position; reports whether the
    /// object exists. No other record changes.
    pub fn set_obj_pos(&mut self, id: &Id, x: Num, y: Num) -> (r: bool)
        ensures
            final(self)@.objects == objs_set_pos(old(self)@.objects, id@, x, y),
            final(self)@.variables == old(self)@.variables,
            final(self)@.mouse == old(self)@.mouse,
            r == (obj_find(old(self)@.objects, id@) >= 0),
    {
        match self.find_obj(id) {
            Some(i) => {
                proof {
                    lemma_obj_find(self@.objects, id@);
                    assert(self@.objects[i as int] == self.objects@[i as int]@);
                }
                let o = Object { id: self.objects[i].id.clone(), x, y };
                self.objects.set(i, o);
                proof {
                    assert(self@.objects =~= objs_set_pos(old(self)@.objects, id@, x, y));
                    assert(self@.variables =~= old(self)@.variables);
                }
                true
            },
            None => {
                false
            },
        }
    }

    /// Adds an object when its identifier is fresh; reports success.
    pub fn add_object(&mut self, id: Id, x: Num, y: Num) -> (r: bool)
        requires
            scene_wf(old(self)@),
        ensures
            scene_wf(final(self)@),
            final(self)@.variables == old(self)@.variables,
            final(self)@.mouse == old(self)@.mouse,
            r == (obj_lookup(old(self)@.objects, id@) is None),
            forall|k: Seq<char>|
                #[trigger] obj_lookup(final(self)@.objects, k) == if k == id@ && obj_lookup(
                    old(self)@.objects,
                    k,
                ) is None {
                    Some(ObjV { id: id@, x, y })
                } else {
                    obj_lookup(old(self)@.objects, k)
                },
    {
        proof {
            lemma_obj_lookup_found(self@.objects, id@);
        }
        match self.find_obj(&id) {
            Some(_) => false,
            None => {
                proof {
                    lemma_obj_find(self@.objects, id@);
                }
                let ghost prev = self@.objects;
                let o = Object { id, x, y };
                self.objects.push(o);
                proof {
                    assert(self@.objects =~= prev.push(o@));
                    assert(self@.variables =~= old(self)@.variables);
                    assert forall|k: Seq<char>|
                        #[trigger] obj_lookup(self@.objects, k) == if k == o@.id && obj_lookup(
                            prev,
                            k,
                        ) is None {
                            Some(o@)
                        } else {
                            obj_lookup(prev, k)
                        } by {
                        lemma_obj_push(prev, o@, k);
                    }
                }
                true
            },
        }
    }

    /// The index of the first variable of an identifier.
    fn find_var(&self, id: &Id) -> (r: Option<usize>)
        ensures
            match r {
                Some(i) => i == var_find(self@.variables, id@),
                None => var_find(self@.variables, id@) < 0,
            },
    {
        proof {
            lemma_var_find(self@.variables, id@);
        }
        let n: usize = self.variables.len();
        let mut i: usize = 0;
        while i < n
            invariant
                i <= n,
                n == self@.variables.len(),
                self@.variables == self.variables@.map_values(|v: Variable| v@),
                forall|j: int| 0 <= j < i ==> (#[trigger] self@.variables[j]).id != id@,
                var_find(self@.variables, id@) >= 0 ==> {
                    &&& var_find(self@.variables, id@) < self@.variables.len()
                    &&& self@.variables[var_find(self@.variables, id@)].id == id@
                },
                var_find(self@.variables, id@) < 0 ==> forall|j: int|
                    0 <= j < self@.variables.len() ==> (#[trigger] self@.variables[j]).id != id@,
            decreases n - i,
        {
            if self.variables[i].id.id_eq(id) {
                proof {
                    assert(self@.variables[i as int] == self.variables@[i as int]@);
                    lemma_var_find(self@.variables, id@);
                    let mf = var_find(self@.variables, id@);
                    assert(mf >= 0);
                    if mf < i as int {
                        assert(self@.variables[mf].id != id@);
                    }
                    assert(i as int == mf);
                }
                return Some(i);
            }
            i = i + 1;
        }
        None
    }

    /// The current value of the variable of an identifier.
    pub fn var_get(&self, id: &Id) -> (r: Option<&Value>)
        ensures
            match r {
                Some(v) => var_lookup(self@.variables, id@) == Some(v@),
                None => var_lookup(self@.variables, id@) is None,
            },
    {
        proof {
            lemma_var_find(self@.variables, id@);
            lemma_var_lookup_found(self@.variables, id@);
        }
        match self.find_var(id) {
            Some(i) => {
                proof {
                    assert(self@.variables[i as int] == self.variables@[i as int]@);
                }
                Some(&self.variables[i].value)
            },
            None => None,
        }
    }

    /// Writes the variable of an identifier; reports whether it exists. No
    /// other record changes.
    pub fn var_set(&mut self, id: &Id, value: Value) -> (r: bool)
        ensures
            final(self)@.variables == vars_set(old(self)@.variables, id@, value@),
            final(self)@.objects == old(self)@.objects,
            final(self)@.mouse == old(self)@.mouse,
            r == (var_find(old(self)@.variables, id@) >= 0),
    {
        match self.find_var(id) {
            Some(i) => {
                proof {
                    lemma_var_find(self@.variables, id@);
                    assert(self@.variables[i as int] == self.variables@[i as int]@);
                }
                let v = Variable { id: self.variables[i].id.clone(), value };
                self.variables.set(i, v);
                proof {
                    assert(self@.variables =~= vars_set(old(self)@.variables, id@, value@));
                    assert(self@.objects =~= old(self)@.objects);
                }
                true
            },
            None => {
                false
            },
        }
    }

    /// Adds a variable when its identifier is fresh; reports success.
    pub fn add_variable(&mut self, id: Id, value: Value) -> (r: bool)
        requires
            scene_wf(old(self)@),
            !value@.is_ref(),
        ensures
            scene_wf(final(self)@),
            final(self)@.objects == old(self)@.objects,
            final(self)@.mouse == old(self)@.mouse,
            r == (var_lookup(old(self)@.variables, id@) is None),
            forall|k: Seq<char>|
                #[trigger] var_lookup(final(self)@.variables, k) == if k == id@ && var_lookup(
                    old(self)@.variables,
                    k,
                ) is None {
                    Some(value@)
                } else {
                    var_lookup(old(self)@.variables, k)
                },
    {
        proof {
            lemma_var_lookup_found(self@.variables, id@);
        }
        match self.find_var(&id) {
            Some(_) => false,
            None => {
                proof {
                    lemma_var_find(self@.variables, id@);
                }
                let ghost prev = self@.variables;
                let v = Variable { id, value };
                self.variables.push(v);
                proof {
                    assert(self@.variables =~= prev.push(v@));
                    assert(self@.objects =~= old(self)@.objects);
                    assert forall|k: Seq<char>|
                        #[trigger] var_lookup(self@.variables, k) == if k == v@.id && var_lookup(
                            prev,
                            k,
                        ) is None {
                            Some(v@.value)
                        } else {
                            var_lookup(prev, k)
                        } by {
                        lemma_var_push(prev, v@, k);
                    }
                }
                true
            },
        }
    }
}

} // verus!
