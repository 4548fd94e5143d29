//! Object constructors of the scene language take a flat parameter list in
//! any order. The values are dealt by type into queues, and each constructor
//! drains the queues in a fixed order, with defaults for what is missing.
//! This module decides which argument fills which parameter; the values
//! themselves stay with the caller, who is handed their positions.
use vstd::prelude::*;
use crate::scene::{CSGOperator, SceneError, ValueKind, csg_operator_of};
use crate::text::str_eq;

verus! {

/// An argument as the dealing sees it: its type, and the text of a string.
#[derive(Debug)]
pub enum Argument {
    Number,
    Boolean,
    Text(String),
    Color,
    Vector,
    Object,
    Texture,
}

impl Argument {
    pub open spec fn spec_kind(&self) -> ValueKind {
        match self {
            Argument::Number => ValueKind::Number,
            Argument::Boolean => ValueKind::Boolean,
            Argument::Text(_) => ValueKind::Text,
            Argument::Color => ValueKind::Color,
            Argument::Vector => ValueKind::Vector,
            Argument::Object => ValueKind::Object,
            Argument::Texture => ValueKind::Texture,
        }
    }

    /// The text of a string argument; empty for the other types.
    pub open spec fn text(&self) -> Seq<char> {
        match self {
            Argument::Text(s) => s@,
            _ => seq![],
        }
    }

    /// The runtime type of the argument.
    pub fn kind(&self) -> (r: ValueKind)
        ensures
            r == self.spec_kind(),
    {
        match self {
            Argument::Number => ValueKind::Number,
            Argument::Boolean => ValueKind::Boolean,
            Argument::Text(_) => ValueKind::Text,
            Argument::Color => ValueKind::Color,
            Argument::Vector => ValueKind::Vector,
            Argument::Object => ValueKind::Object,
            Argument::Texture => ValueKind::Texture,
        }
    }
}

/// The types of a list of arguments.
pub open spec fn kinds(args: Seq<Argument>) -> Seq<ValueKind> {
    args.map_values(|a: Argument| a.spec_kind())
}

/// The positions, in order, at which `k` occurs in `ks`.
pub open spec fn positions(ks: Seq<ValueKind>, k: ValueKind) -> Seq<usize>
    decreases ks.len(),
{
    if ks.len() == 0 {
        seq![]
    } else {
        let p = positions(ks.drop_last(), k);
        if ks.last() == k {
            p.push((ks.len() - 1) as usize)
        } else {
            p
        }
    }
}

/// The `i`-th element of `s`, if there is one.
pub open spec fn nth(s: Seq<usize>, i: int) -> Option<usize> {
    if 0 <= i < s.len() {
        Some(s[i])
    } else {
        None
    }
}

/// A queue of argument positions, drained from the front.
pub struct IndexQueue {
    items: Vec<usize>,
    head: usize,
}

impl View for IndexQueue {
    type V = Seq<usize>;

    /// The positions not yet taken, front first.
    closed spec fn view(&self) -> Seq<usize> {
        self.items@.skip(self.head as int)
    }
}

impl IndexQueue {
    pub closed spec fn wf(&self) -> bool {
        self.head <= self.items@.len()
    }

    fn new() -> (r: Self)
        ensures
            r.wf(),
            r.head == 0,
            r@ == Seq::<usize>::empty(),
    {
        IndexQueue { items: Vec::new(), head: 0 }
    }

    fn push_back(&mut self, i: usize)
        requires
            old(self).wf(),
            old(self).head == 0,
        ensures
            final(self).wf(),
            final(self).head == 0,
            final(self)@ == old(self)@.push(i),
    {
        self.items.push(i);
        proof {
            assert(self.items@.skip(0) =~= self.items@);
            assert(old(self).items@.skip(0) =~= old(self).items@);
        }
    }

    /// Takes the front position.
    pub fn pop_front(&mut self) -> (r: Option<usize>)
        requires
            old(self).wf(),
        ensures
            final(self).wf(),
            r == nth(old(self)@, 0),
            final(self)@ == (if old(self)@.len() > 0 {
                old(self)@.skip(1)
            } else {
                old(self)@
            }),
    {
        if self.head < self.items.len() {
            let r = self.items[self.head];
            self.head = self.head + 1;
            proof {
                assert(self@ =~= old(self)@.skip(1));
            }
            Some(r)
        } else {
            None
        }
    }

    /// The number of positions not yet taken.
    pub fn len(&self) -> (r: usize)
        requires
            self.wf(),
        ensures
            r == self@.len(),
    {
        self.items.len() - self.head
    }
}

/// The arguments of one call, dealt by type. Booleans are never dealt.
pub struct ValuesByType {
    pub numbers: IndexQueue,
    pub strings: IndexQueue,
    pub vectors: IndexQueue,
    pub objects: IndexQueue,
    pub colors: IndexQueue,
    pub textures: IndexQueue,
}

impl ValuesByType {
    pub closed spec fn wf(&self) -> bool {
        &&& self.numbers.wf()
        &&& self.strings.wf()
        &&& self.vectors.wf()
        &&& self.objects.wf()
        &&& self.colors.wf()
        &&& self.textures.wf()
    }

    /// Every queue holds the positions of its type in `ks`.
    pub open spec fn dealt_from(&self, ks: Seq<ValueKind>) -> bool {
        &&& self.numbers@ == positions(ks, ValueKind::Number)
        &&& self.strings@ == positions(ks, ValueKind::Text)
        &&& self.vectors@ == positions(ks, ValueKind::Vector)
        &&& self.objects@ == positions(ks, ValueKind::Object)
        &&& self.colors@ == positions(ks, ValueKind::Color)
        &&& self.textures@ == positions(ks, ValueKind::Texture)
    }

    /// Deals the arguments into one queue per type, in their order; a boolean
    /// argument is refused.
    pub fn from_value_list(args: &Vec<Argument>) -> (r: Result<ValuesByType, SceneError>)
        ensures
            r is Err <==> kinds(args@).contains(ValueKind::Boolean),
            r matches Err(e) ==> e == SceneError::UnexpectedBoolean,
            r matches Ok(v) ==> v.wf() && v.dealt_from(kinds(args@)),
    {
        let mut numbers = IndexQueue::new();
        let mut strings = IndexQueue::new();
        let mut vectors = IndexQueue::new();
        let mut objects = IndexQueue::new();
        let mut colors = IndexQueue::new();
        let mut textures = IndexQueue::new();
        let ghost ks = kinds(args@);
        let mut i: usize = 0;
        while i < args.len()
            invariant
                ks == kinds(args@),
                i <= args@.len(),
                forall|j: int| 0 <= j < i ==> ks[j] != ValueKind::Boolean,
                numbers.wf() && numbers.head == 0,
                strings.wf() && strings.head == 0,
                vectors.wf() && vectors.head == 0,
                objects.wf() && objects.head == 0,
                colors.wf() && colors.head == 0,
                textures.wf() && textures.head == 0,
                numbers@ == positions(ks.take(i as int), ValueKind::Number),
                strings@ == positions(ks.take(i as int), ValueKind::Text),
                vectors@ == positions(ks.take(i as int), ValueKind::Vector),
                objects@ == positions(ks.take(i as int), ValueKind::Object),
                colors@ == positions(ks.take(i as int), ValueKind::Color),
                textures@ == positions(ks.take(i as int), ValueKind::Texture),
            decreases args@.len() - i,
        {
            let k = args[i].kind();
            proof {
                assert(ks.take(i + 1).drop_last() =~= ks.take(i as int));
                assert(ks.take(i + 1).last() == k);
            }
            match k {
                ValueKind::Number => numbers.push_back(i),
                ValueKind::Text => strings.push_back(i),
                ValueKind::Vector => vectors.push_back(i),
                ValueKind::Object => objects.push_back(i),
                ValueKind::Color => colors.push_back(i),
                ValueKind::Texture => textures.push_back(i),
                ValueKind::Boolean => {
                    proof {
                        assert(ks[i as int] == ValueKind::Boolean);
                    }
                    return Err(SceneError::UnexpectedBoolean);
                },
            }
            i = i + 1;
        }
        proof {
            assert(ks.take(args@.len() as int) =~= ks);
            if ks.contains(ValueKind::Boolean) {
                let j = choose|j: int| 0 <= j < ks.len() && ks[j] == ValueKind::Boolean;
                assert(ks[j] != ValueKind::Boolean);
            }
        }
        Ok(ValuesByType { numbers, strings, vectors, objects, colors, textures })
    }

    /// Whether every argument has been taken.
    pub open spec fn spec_is_empty(&self) -> bool {
        &&& self.numbers@.len() == 0
        &&& self.strings@.len() == 0
        &&& self.vectors@.len() == 0
        &&& self.objects@.len() == 0
        &&& self.colors@.len() == 0
        &&& self.textures@.len() == 0
    }

    /// Refuses arguments that no parameter took.
    pub fn check_empty(&self) -> (r: Result<(), SceneError>)
        requires
            self.wf(),
        ensures
            r is Ok <==> self.spec_is_empty(),
            r matches Err(e) ==> e == SceneError::LeftoverArguments,
    {
        if self.numbers.len() == 0 && self.strings.len() == 0 && self.vectors.len() == 0
            && self.objects.len() == 0 && self.colors.len() == 0 && self.textures.len() == 0 {
            Ok(())
        } else {
            Err(SceneError::LeftoverArguments)
        }
    }
}

/// The geometry of a constructed object. Each position names the argument
/// that fills the parameter; `None` means the parameter takes its default.
#[derive(Clone, Copy, Debug, PartialEq, Eq, Structural)]
pub enum ShapeGeometry {
    Sphere { center: Option<usize>, radius: Option<usize> },
    Cube { center: Option<usize>, length: Option<usize> },
    Plane { normal: Option<usize>, distance: Option<usize> },
    Csg { operator: CSGOperator, a: usize, b: usize },
}

/// Where the surface of a constructed object gets its appearance from.
#[derive(Clone, Copy, Debug, PartialEq, Eq, Structural)]
pub enum MaterialSource {
    /// The texture argument at this position.
    Texture(usize),
    /// The color argument at this position, or black.
    Color(Option<usize>),
}

/// Which argument fills each parameter of an object constructor.
#[derive(Clone, Copy, Debug, PartialEq, Eq, Structural)]
pub struct ShapePlan {
    pub geometry: ShapeGeometry,
    pub material: MaterialSource,
    pub reflectivity: Option<usize>,
    pub transparency: Option<usize>,
}

/// The rest of a plan once the geometry has taken its arguments: the
/// material, then reflectivity and transparency from the numbers left, and a
/// refusal of anything no parameter took. `n_used`, `v_used`, `t_used` and
/// `o_used` count the numbers, vectors, strings and objects the geometry took.
pub open spec fn finish_plan(
    geometry: ShapeGeometry,
    ks: Seq<ValueKind>,
    n_used: int,
    v_used: int,
    t_used: int,
    o_used: int,
) -> Result<ShapePlan, SceneError> {
    let ns = positions(ks, ValueKind::Number);
    let xs = positions(ks, ValueKind::Texture);
    let cs = positions(ks, ValueKind::Color);
    let material = if xs.len() > 0 {
        MaterialSource::Texture(xs[0])
    } else {
        MaterialSource::Color(nth(cs, 0))
    };
    let colors_used: int = if xs.len() > 0 {
        0
    } else {
        1
    };
    if ns.len() > n_used + 2 || positions(ks, ValueKind::Vector).len() > v_used || positions(
        ks,
        ValueKind::Text,
    ).len() > t_used || positions(ks, ValueKind::Object).len() > o_used || xs.len() > 1
        || cs.len() > colors_used {
        Err(SceneError::LeftoverArguments)
    } else {
        Ok(
            ShapePlan {
                geometry,
                material,
                reflectivity: nth(ns, n_used),
                transparency: nth(ns, n_used + 1),
            },
        )
    }
}

/// What the constructor `name` makes of `args`. A sphere or a cube takes a
/// center vector and a size number, a plane a normal vector and a distance;
/// a CSG takes an operator string (union when none is given) and two objects.
/// Then every constructor takes a texture, or else a color, and two more
/// numbers: reflectivity and transparency.
pub open spec fn plan_object_spec(name: Seq<char>, args: Seq<Argument>) -> Result<
    ShapePlan,
    SceneError,
> {
    let ks = kinds(args);
    let ns = positions(ks, ValueKind::Number);
    let vs = positions(ks, ValueKind::Vector);
    let ts = positions(ks, ValueKind::Text);
    let os = positions(ks, ValueKind::Object);
    if ks.contains(ValueKind::Boolean) {
        Err(SceneError::UnexpectedBoolean)
    } else if name == "sphere"@ {
        finish_plan(ShapeGeometry::Sphere { center: nth(vs, 0), radius: nth(ns, 0) }, ks, 1, 1, 0, 0)
    } else if name == "cube"@ {
        finish_plan(ShapeGeometry::Cube { center: nth(vs, 0), length: nth(ns, 0) }, ks, 1, 1, 0, 0)
    } else if name == "plane"@ {
        finish_plan(
            ShapeGeometry::Plane { normal: nth(vs, 0), distance: nth(ns, 0) },
            ks,
            1,
            1,
            0,
            0,
        )
    } else if name == "csg"@ {
        let op = if ts.len() == 0 {
            Some(CSGOperator::Union)
        } else {
            csg_operator_of(args[ts[0] as int].text())
        };
        match op {
            None => Err(SceneError::UnknownCsgOperator),
            Some(op) => if os.len() < 2 {
                Err(SceneError::MissingObject)
            } else {
                finish_plan(ShapeGeometry::Csg { operator: op, a: os[0], b: os[1] }, ks, 0, 0, 1, 2)
            },
        }
    } else {
        Err(SceneError::UnknownShape)
    }
}

/// Every position in `positions(ks, k)` is a position of `k` in `ks`.
proof fn lemma_positions_sound(ks: Seq<ValueKind>, k: ValueKind)
    requires
        ks.len() <= usize::MAX,
    ensures
        forall|j: int|
            0 <= j < positions(ks, k).len() ==> (#[trigger] positions(ks, k)[j]) < ks.len() && ks[positions(ks, k)[j] as int] == k,
    decreases ks.len(),
{
    if ks.len() > 0 {
        let d = ks.drop_last();
        lemma_positions_sound(d, k);
        let p = positions(d, k);
        assert forall|j: int| 0 <= j < p.len() implies p[j] < ks.len() && ks[p[j] as int] == k by {
            assert(d[p[j] as int] == k);
        }
    }
}

/// Which argument fills each parameter of the object constructor `name`.
pub fn plan_object(name: &str, args: &Vec<Argument>) -> (r: Result<ShapePlan, SceneError>)
    ensures
        r == plan_object_spec(name@, args@),
{
    let arg_count = args.len();
    let mut values = ValuesByType::from_value_list(args)?;
    let ghost ks = kinds(args@);
    proof {
        assert(ks.len() == arg_count);
    }
    let geometry;
    if str_eq(name, "sphere") {
        let center = values.vectors.pop_front();
        let radius = values.numbers.pop_front();
        geometry = ShapeGeometry::Sphere { center, radius };
    } else if str_eq(name, "cube") {
        let center = values.vectors.pop_front();
        let length = values.numbers.pop_front();
        geometry = ShapeGeometry::Cube { center, length };
    } else if str_eq(name, "plane") {
        let normal = values.vectors.pop_front();
        let distance = values.numbers.pop_front();
        geometry = ShapeGeometry::Plane { normal, distance };
    } else if str_eq(name, "csg") {
        let operator = match values.strings.pop_front() {
            None => CSGOperator::Union,
            Some(i) => {
                proof {
                    lemma_positions_sound(ks, ValueKind::Text);
                    assert(ks[i as int] == ValueKind::Text);
                }
                match &args[i] {
                    Argument::Text(text) => CSGOperator::from_name(text.as_str())?,
                    _ => {
                        proof {
                            assert(false);
                        }
                        CSGOperator::Union
                    },
                }
            },
        };
        let a = values.objects.pop_front();
        let b = values.objects.pop_front();
        match (a, b) {
            (Some(a), Some(b)) => {
                geometry = ShapeGeometry::Csg { operator, a, b };
            },
            _ => {
                return Err(SceneError::MissingObject);
            },
        }
    } else {
        return Err(SceneError::UnknownShape);
    }
    let material = match values.textures.pop_front() {
        Some(t) => MaterialSource::Texture(t),
        None => MaterialSource::Color(values.colors.pop_front()),
    };
    let reflectivity = values.numbers.pop_front();
    let transparency = values.numbers.pop_front();
    values.check_empty()?;
    Ok(ShapePlan { geometry, material, reflectivity, transparency })
}

/// Which argument fills each parameter of a point light: its color, its
/// position and its fade distance. `None` means the default.
#[derive(Clone, Copy, Debug, PartialEq, Eq, Structural)]
pub struct LightPlan {
    pub color: Option<usize>,
    pub point: Option<usize>,
    pub fade_distance: Option<usize>,
}

/// What a light directive makes of `args`: the first color, vector and
/// number. Other arguments are ignored; a boolean is refused.
pub open spec fn plan_light_spec(args: Seq<Argument>) -> Result<LightPlan, SceneError> {
    let ks = kinds(args);
    if ks.contains(ValueKind::Boolean) {
        Err(SceneError::UnexpectedBoolean)
    } else {
        Ok(
            LightPlan {
                color: nth(positions(ks, ValueKind::Color), 0),
                point: nth(positions(ks, ValueKind::Vector), 0),
                fade_distance: nth(positions(ks, ValueKind::Number), 0),
            },
        )
    }
}

/// Which argument fills each parameter of a point light.
pub fn plan_light(args: &Vec<Argument>) -> (r: Result<LightPlan, SceneError>)
    ensures
        r == plan_light_spec(args@),
{
    let mut values = ValuesByType::from_value_list(args)?;
    let color = values.colors.pop_front();
    let point = values.vectors.pop_front();
    let fade_distance = values.numbers.pop_front();
    Ok(LightPlan { color, point, fade_distance })
}

/// `draw` takes exactly one argument, and it must be an object.
pub fn check_draw(kinds: &Vec<ValueKind>) -> (r: Result<(), SceneError>)
    ensures
        r is Ok <==> (kinds@.len() == 1 && kinds@[0] == ValueKind::Object),
        r matches Err(e) ==> e == SceneError::NotAnObject,
{
    if kinds.len() == 1 && kinds[0] == ValueKind::Object {
        Ok(())
    } else {
        Err(SceneError::NotAnObject)
    }
}

} // verus!
