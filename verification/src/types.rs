//! The types of the intermediate representation and their memory layout.

use vstd::prelude::*;

verus! {

/// The mathematical value of a [`Type`].
pub enum TypeModel {
    Bool,
    Char,
    Integer,
    Float,
    Str,
    Pointer { to: Box<TypeModel> },
    Slice { of: Box<TypeModel> },
    Array { len: nat, of: Box<TypeModel> },
    Struct { name: Seq<char>, fields: Seq<(Seq<char>, TypeModel)> },
}

/// A type of the intermediate representation.
#[derive(Debug, PartialEq, Eq, Hash)]
pub enum Type {
    BoolT,
    CharT,
    IntegerT,
    FloatT,
    StringT,
    PointerT { ptr_type: Box<Type> },
    SliceT { ptr_type: Box<Type> },
    ArrayT { size: usize, array_type: Box<Type> },
    StructT { name: String, components: Vec<(String, Type)> },
}

impl Type {
    /// The mathematical value of the type: names as character sequences, the
    /// components as a sequence.
    pub open spec fn model(self) -> TypeModel
        decreases self,
    {
        match self {
            Type::BoolT => TypeModel::Bool,
            Type::CharT => TypeModel::Char,
            Type::IntegerT => TypeModel::Integer,
            Type::FloatT => TypeModel::Float,
            Type::StringT => TypeModel::Str,
            Type::PointerT { ptr_type } => TypeModel::Pointer { to: Box::new(ptr_type.model()) },
            Type::SliceT { ptr_type } => TypeModel::Slice { of: Box::new(ptr_type.model()) },
            Type::ArrayT { size, array_type } => TypeModel::Array {
                len: size as nat,
                of: Box::new(array_type.model()),
            },
            Type::StructT { name, components } => TypeModel::Struct {
                name: name@,
                fields: Seq::new(
                    components@.len(),
                    |i: int|
                        if 0 <= i < components.len() {
                            (components[i].0@, components[i].1.model())
                        } else {
                            (Seq::empty(), TypeModel::Bool)
                        },
                ),
            },
        }
    }
}

impl View for Type {
    type V = TypeModel;

    open spec fn view(&self) -> TypeModel {
        self.model()
    }
}

impl TypeModel {
    /// The number of bytes that a value of the type occupies. Components lie
    /// one after the other, without padding.
    pub open spec fn size(self) -> nat
        decreases self, 0nat,
    {
        match self {
            TypeModel::Bool | TypeModel::Char => 1,
            TypeModel::Integer | TypeModel::Float | TypeModel::Pointer { .. } => 8,
            TypeModel::Str | TypeModel::Slice { .. } => 16,
            TypeModel::Array { len, of } => len * of.size(),
            TypeModel::Struct { fields, .. } => Self::size_of_fields(fields, fields.len()),
        }
    }

    /// The bytes that the first `n` of `fields` occupy together.
    pub open spec fn size_of_fields(fields: Seq<(Seq<char>, TypeModel)>, n: nat) -> nat
        decreases fields, n,
    {
        if n == 0 || n > fields.len() {
            0
        } else {
            Self::size_of_fields(fields, (n - 1) as nat) + fields[n - 1].1.size()
        }
    }

    /// The size of the type, and every size that adds up to it, fits a
    /// machine word. What a pointer or a slice refers to adds nothing to its
    /// size.
    pub open spec fn fits(self) -> bool
        decreases self,
    {
        match self {
            TypeModel::Array { len, of } => of.fits() && len * of.size() <= usize::MAX,
            TypeModel::Struct { fields, .. } => {
                &&& forall|i: int| 0 <= i < fields.len() ==> (#[trigger] fields[i]).1.fits()
                &&& Self::size_of_fields(fields, fields.len()) <= usize::MAX
            },
            _ => true,
        }
    }

    /// Whether the type is passed and returned as a single machine word.
    pub open spec fn is_scalar(self) -> bool {
        self is Bool || self is Char || self is Integer || self is Pointer
    }

    /// Whether a value of the type can be passed to a call: a scalar, a
    /// string, a slice or a struct without components.
    pub open spec fn can_be_passed(self) -> bool {
        self.is_scalar() || self is Str || self is Slice || (self is Struct && self.fields().len()
            == 0)
    }

    /// The components of a struct; no components for any other type.
    pub open spec fn fields(self) -> Seq<(Seq<char>, TypeModel)> {
        match self {
            TypeModel::Struct { fields, .. } => fields,
            _ => Seq::empty(),
        }
    }

    /// The offset of the component called `name`, and every size that adds
    /// up to it, fits a machine word.
    pub open spec fn offset_fits(self, name: Seq<char>) -> bool {
        match field_position(self.fields(), name) {
            Some(i) => {
                &&& forall|j: int| 0 <= j < i ==> (#[trigger] self.fields()[j]).1.fits()
                &&& Self::size_of_fields(self.fields(), i as nat) <= usize::MAX
            },
            None => true,
        }
    }

    /// The byte offset of the component called `name`: the sizes of the
    /// components declared before it, added up.
    pub open spec fn field_offset(self, name: Seq<char>) -> Option<nat> {
        match field_position(self.fields(), name) {
            Some(i) => Some(Self::size_of_fields(self.fields(), i as nat)),
            None => None,
        }
    }

    /// The declared type of the component called `name`.
    pub open spec fn field_type(self, name: Seq<char>) -> Option<TypeModel> {
        match field_position(self.fields(), name) {
            Some(i) => Some(self.fields()[i].1),
            None => None,
        }
    }

    /// The type of the elements of an array or a slice.
    pub open spec fn element(self) -> Option<TypeModel> {
        match self {
            TypeModel::Array { of, .. } => Some(*of),
            TypeModel::Slice { of } => Some(*of),
            _ => None,
        }
    }

    /// The type that a pointer points to.
    pub open spec fn pointee(self) -> Option<TypeModel> {
        match self {
            TypeModel::Pointer { to } => Some(*to),
            _ => None,
        }
    }
}

/// `i` is the place of the first of `fields` that is called `name`.
pub open spec fn is_first_named(
    fields: Seq<(Seq<char>, TypeModel)>,
    name: Seq<char>,
    i: int,
) -> bool {
    &&& 0 <= i < fields.len()
    &&& fields[i].0 == name
    &&& forall|j: int| 0 <= j < i ==> (#[trigger] fields[j]).0 != name
}

/// The place of the first of `fields` that is called `name`, if there is one.
pub open spec fn field_position(
    fields: Seq<(Seq<char>, TypeModel)>,
    name: Seq<char>,
) -> Option<int> {
    if exists|i: int| is_first_named(fields, name, i) {
        Some(choose|i: int| is_first_named(fields, name, i))
    } else {
        None
    }
}

/// A longer prefix of the components is at least as large as a shorter one.
pub proof fn lemma_size_of_fields_grows(fields: Seq<(Seq<char>, TypeModel)>, i: nat, j: nat)
    requires
        i <= j <= fields.len(),
    ensures
        TypeModel::size_of_fields(fields, i) <= TypeModel::size_of_fields(fields, j),
    decreases j,
{
    if i < j {
        lemma_size_of_fields_grows(fields, i, (j - 1) as nat);
    }
}

/// At most one place is the first with a given name.
pub proof fn lemma_first_named_unique(fields: Seq<(Seq<char>, TypeModel)>, name: Seq<char>, i: int)
    requires
        is_first_named(fields, name, i),
    ensures
        field_position(fields, name) == Some(i),
{
    let k = choose|k: int| is_first_named(fields, name, k);
    assert(is_first_named(fields, name, k));
    if k < i {
        assert(fields[k].0 != name);
    }
    if i < k {
        assert(fields[i].0 != name);
    }
}

impl Type {
    /// The size of the type in bytes, or `None` where a size within it
    /// exceeds the machine word.
    pub fn checked_size(&self) -> (r: Option<usize>)
        ensures
            r is Some <==> self@.fits(),
            r matches Some(n) ==> n == self@.size(),
        decreases self,
    {
        match self {
            Type::BoolT | Type::CharT => Some(1),
            Type::IntegerT | Type::FloatT | Type::PointerT { .. } => Some(8),
            Type::StringT | Type::SliceT { .. } => Some(16),
            Type::ArrayT { size, array_type } => match array_type.checked_size() {
                Some(n) => size.checked_mul(n),
                None => None,
            },
            Type::StructT { name: _, components } => {
                let ghost fields = self@.fields();
                let mut total: usize = 0;
                let mut i: usize = 0;
                while i < components.len()
                    invariant
                        i <= components.len(),
                        *self matches Type::StructT { components: c, .. } && c == components,
                        fields == self@.fields(),
                        fields.len() == components.len(),
                        forall|j: int| 0 <= j < i ==> (#[trigger] fields[j]).1.fits(),
                        total == TypeModel::size_of_fields(fields, i as nat),
                    decreases components.len() - i,
                {
                    assert(fields[i as int].1 == components[i as int].1@);
                    let part = match components[i].1.checked_size() {
                        Some(n) => n,
                        None => {
                            return None;
                        },
                    };
                    proof {
                        lemma_size_of_fields_grows(fields, (i + 1) as nat, fields.len());
                    }
                    total = match total.checked_add(part) {
                        Some(n) => n,
                        None => {
                            return None;
                        },
                    };
                    i += 1;
                }
                Some(total)
            },
        }
    }

    /// The size of the type in bytes.
    pub fn get_size_bytes(&self) -> (r: usize)
        requires
            self@.fits(),
        ensures
            r == self@.size(),
        decreases self,
    {
        match self {
            Type::BoolT | Type::CharT => 1,
            Type::IntegerT | Type::FloatT | Type::PointerT { .. } => 8,
            Type::StringT | Type::SliceT { .. } => 16,
            Type::ArrayT { size, array_type } => *size * array_type.get_size_bytes(),
            Type::StructT { name: _, components } => {
                let ghost fields = self@.fields();
                let mut total: usize = 0;
                let mut i: usize = 0;
                while i < components.len()
                    invariant
                        i <= components.len(),
                        *self matches Type::StructT { components: c, .. } && c == components,
                        self@.fits(),
                        fields == self@.fields(),
                        fields.len() == components.len(),
                        total == TypeModel::size_of_fields(fields, i as nat),
                    decreases components.len() - i,
                {
                    assert(fields[i as int].1 == components[i as int].1@);
                    proof {
                        lemma_size_of_fields_grows(fields, (i + 1) as nat, fields.len());
                    }
                    total = total + components[i].1.get_size_bytes();
                    i += 1;
                }
                total
            },
        }
    }

    /// The place of the first component called `name`, where the type is a
    /// struct that has one.
    pub fn find_component(&self, name: &String) -> (r: Option<usize>)
        ensures
            match r {
                Some(i) => field_position(self@.fields(), name@) == Some(i as int),
                None => field_position(self@.fields(), name@) is None,
            },
    {
        match self {
            Type::StructT { name: _, components } => {
                let ghost fields = self@.fields();
                let mut i: usize = 0;
                while i < components.len()
                    invariant
                        i <= components.len(),
                        *self matches Type::StructT { components: c, .. } && c == components,
                        fields == self@.fields(),
                        fields.len() == components.len(),
                        forall|j: int| 0 <= j < i ==> (#[trigger] fields[j]).0 != name@,
                    decreases components.len() - i,
                {
                    assert(fields[i as int] == (components[i as int].0@, components[i as int].1@));
                    if components[i].0 == *name {
                        proof {
                            lemma_first_named_unique(fields, name@, i as int);
                        }
                        return Some(i);
                    }
                    i += 1;
                }
                assert(forall|k: int| !is_first_named(fields, name@, k));
                None
            },
            _ => {
                assert(forall|k: int| !is_first_named(self@.fields(), name@, k));
                None
            },
        }
    }

    /// The byte offset of the component called `name`, where the type is a
    /// struct that has one.
    pub fn get_variable_offset(&self, name: &String) -> (r: Option<usize>)
        requires
            self@.offset_fits(name@),
        ensures
            r is Some <==> self@.field_offset(name@) is Some,
            r matches Some(n) ==> self@.field_offset(name@) == Some(n as nat),
    {
        let place = match self.find_component(name) {
            Some(k) => k,
            None => {
                return None;
            },
        };
        match self {
            Type::StructT { name: _, components } => {
                let ghost fields = self@.fields();
                let mut total: usize = 0;
                let mut i: usize = 0;
                while i < place
                    invariant
                        i <= place < components.len(),
                        *self matches Type::StructT { components: c, .. } && c == components,
                        self@.offset_fits(name@),
                        field_position(fields, name@) == Some(place as int),
                        fields == self@.fields(),
                        fields.len() == components.len(),
                        total == TypeModel::size_of_fields(fields, i as nat),
                    decreases place - i,
                {
                    assert(fields[i as int].1 == components[i as int].1@);
                    proof {
                        lemma_size_of_fields_grows(fields, (i + 1) as nat, place as nat);
                    }
                    total = total + components[i].1.get_size_bytes();
                    i += 1;
                }
                Some(total)
            },
            _ => None,
        }
    }

    /// Whether the offset of the component called `name`, and every size
    /// that adds up to it, fits a machine word.
    pub fn check_offset_fits(&self, name: &String) -> (r: bool)
        ensures
            r == self@.offset_fits(name@),
    {
        let place = match self.find_component(name) {
            Some(k) => k,
            None => {
                return true;
            },
        };
        match self {
            Type::StructT { name: _, components } => {
                let ghost fields = self@.fields();
                let mut total: usize = 0;
                let mut i: usize = 0;
                while i < place
                    invariant
                        i <= place < components.len(),
                        *self matches Type::StructT { components: c, .. } && c == components,
                        field_position(fields, name@) == Some(place as int),
                        fields == self@.fields(),
                        fields.len() == components.len(),
                        forall|j: int| 0 <= j < i ==> (#[trigger] fields[j]).1.fits(),
                        total == TypeModel::size_of_fields(fields, i as nat),
                    decreases place - i,
                {
                    assert(fields[i as int].1 == components[i as int].1@);
                    proof {
                        lemma_size_of_fields_grows(fields, (i + 1) as nat, place as nat);
                    }
                    let part = match components[i].1.checked_size() {
                        Some(n) => n,
                        None => {
                            return false;
                        },
                    };
                    total = match total.checked_add(part) {
                        Some(n) => n,
                        None => {
                            return false;
                        },
                    };
                    i += 1;
                }
                true
            },
            _ => true,
        }
    }

    /// The declared type of the component called `name`, where the type is a
    /// struct that has one.
    pub fn get_variable_type(&self, name: &String) -> (r: Option<Type>)
        ensures
            r is Some <==> self@.field_type(name@) is Some,
            r matches Some(t) ==> self@.field_type(name@) == Some(t@),
    {
        let place = match self.find_component(name) {
            Some(k) => k,
            None => {
                return None;
            },
        };
        match self {
            Type::StructT { name: _, components } => {
                assert(self@.fields()[place as int].1 == components[place as int].1@);
                Some(components[place].1.deep_clone())
            },
            _ => None,
        }
    }

    /// A copy of the type with the same mathematical value.
    pub fn deep_clone(&self) -> (r: Type)
        ensures
            r@ == self@,
        decreases self,
    {
        match self {
            Type::BoolT => Type::BoolT,
            Type::CharT => Type::CharT,
            Type::IntegerT => Type::IntegerT,
            Type::FloatT => Type::FloatT,
            Type::StringT => Type::StringT,
            Type::PointerT { ptr_type } => Type::PointerT {
                ptr_type: Box::new(ptr_type.deep_clone()),
            },
            Type::SliceT { ptr_type } => Type::SliceT { ptr_type: Box::new(ptr_type.deep_clone()) },
            Type::ArrayT { size, array_type } => Type::ArrayT {
                size: *size,
                array_type: Box::new(array_type.deep_clone()),
            },
            Type::StructT { name, components } => {
                let mut copies: Vec<(String, Type)> = Vec::new();
                let mut i: usize = 0;
                while i < components.len()
                    invariant
                        i <= components.len(),
                        *self matches Type::StructT { components: c, .. } && c == components,
                        copies.len() == i,
                        forall|j: int|
                            0 <= j < i ==> (#[trigger] copies[j]).0@ == components[j].0@
                                && copies[j].1@ == components[j].1@,
                    decreases components.len() - i,
                {
                    copies.push((components[i].0.clone(), components[i].1.deep_clone()));
                    i += 1;
                }
                let r = Type::StructT { name: name.clone(), components: copies };
                assert(r@.fields() =~= self@.fields());
                r
            },
        }
    }
}

impl Clone for Type {
    fn clone(&self) -> (r: Self)
        ensures
            r@ == self@,
    {
        self.deep_clone()
    }
}

} // verus!
