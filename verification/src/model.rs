//! The data that the parser produces: type references, the items of an
//! annotation's list, and the validated conversion path.

use vstd::prelude::*;
use vstd::string::*;
use crate::direction::Direction;

verus! {

/// A type as written in the annotation. It is never resolved: its meaning is
/// its text.
#[derive(Debug, PartialEq, Eq)]
pub struct TypeRef {
    pub text: String,
}

impl View for TypeRef {
    type V = Seq<char>;

    open spec fn view(&self) -> Seq<char> {
        self.text@
    }
}

impl Clone for TypeRef {
    fn clone(&self) -> (copy: Self)
        ensures
            copy@ == self@,
    {
        TypeRef { text: self.text.clone() }
    }
}

impl TypeRef {
    /// A reference with the given text.
    pub fn new(text: &str) -> (ty: TypeRef)
        ensures
            ty@ == text@,
    {
        TypeRef { text: String::from_str(text) }
    }

    pub fn as_str(&self) -> (text: &str)
        ensures
            text@ == self@,
    {
        self.text.as_str()
    }

    /// Whether two references are written the same.
    pub fn same(&self, other: &TypeRef) -> (same: bool)
        ensures
            same == (self@ == other@),
    {
        self.text == other.text
    }
}

/// The texts of a sequence of type references.
pub open spec fn texts(types: Seq<TypeRef>) -> Seq<Seq<char>> {
    types.map_values(|ty: TypeRef| ty@)
}

/// One item of an annotation's list, as a value.
#[derive(Debug, PartialEq, Eq)]
pub enum Item {
    /// A type reference.
    Type(TypeRef),
    /// `error = T`, holding `T`.
    Error(TypeRef),
    /// Anything else, holding its text.
    Other(String),
}

/// What an [`Item`] stands for.
pub enum ItemModel {
    Type(Seq<char>),
    Error(Seq<char>),
    Other(Seq<char>),
}

impl View for Item {
    type V = ItemModel;

    open spec fn view(&self) -> ItemModel {
        match self {
            Item::Type(ty) => ItemModel::Type(ty@),
            Item::Error(ty) => ItemModel::Error(ty@),
            Item::Other(text) => ItemModel::Other(text@),
        }
    }
}

/// What the items of a list stand for.
pub open spec fn item_models(items: Seq<Item>) -> Seq<ItemModel> {
    items.map_values(|item: Item| item@)
}

/// What a [`ConversionSpec`] stands for: the direction, every type of the
/// list in the order written, the custom error type and the mode.
pub struct PathModel {
    pub direction: Direction,
    pub types: Seq<Seq<char>>,
    pub error: Option<Seq<char>>,
    pub all_pairs: bool,
}

impl PathModel {
    /// What the parser grants of every path it accepts: at least two types;
    /// a custom error type only for a fallible chain; a forward chain that
    /// does not end where it starts.
    pub open spec fn valid(self) -> bool {
        &&& self.types.len() >= 2
        &&& self.error is Some ==> self.direction.is_fallible() && !self.all_pairs
        &&& self.direction.is_forward() && !self.all_pairs ==> self.types.first()
            != self.types.last()
    }
}

/// A validated conversion path. The list of an annotation had at least two
/// type references: the first, the last and those between them.
#[derive(Debug, PartialEq, Eq)]
pub struct ConversionSpec {
    pub direction: Direction,
    pub first_type: TypeRef,
    pub intermediate_types: Vec<TypeRef>,
    pub last_type: TypeRef,
    pub error_type: Option<TypeRef>,
    pub expand_all_pairs: bool,
}

impl View for ConversionSpec {
    type V = PathModel;

    open spec fn view(&self) -> PathModel {
        PathModel {
            direction: self.direction,
            types: seq![self.first_type@] + texts(self.intermediate_types@) + seq![
                self.last_type@,
            ],
            error: match self.error_type {
                Some(ty) => Some(ty@),
                None => None,
            },
            all_pairs: self.expand_all_pairs,
        }
    }
}

impl ConversionSpec {
    /// The path over the given list of types, which holds at least two.
    pub fn new(
        direction: Direction,
        types: &Vec<TypeRef>,
        error_type: Option<TypeRef>,
        expand_all_pairs: bool,
    ) -> (spec: ConversionSpec)
        requires
            types.len() >= 2,
        ensures
            spec@.direction == direction,
            spec@.types == texts(types@),
            spec@.error == match error_type {
                Some(ty) => Some(ty@),
                None => None,
            },
            spec@.all_pairs == expand_all_pairs,
    {
        let n = types.len();
        let mut intermediate_types: Vec<TypeRef> = Vec::new();
        let mut i: usize = 1;
        while i < n - 1
            invariant
                n == types.len(),
                n >= 2,
                1 <= i <= n - 1,
                intermediate_types.len() == i - 1,
                forall|j: int| 0 <= j < i - 1 ==> intermediate_types@[j]@ == types@[j + 1]@,
            decreases n - i,
        {
            intermediate_types.push(types[i].clone());
            i += 1;
        }
        let spec = ConversionSpec {
            direction,
            first_type: types[0].clone(),
            intermediate_types,
            last_type: types[n - 1].clone(),
            error_type,
            expand_all_pairs,
        };
        assert(spec@.types =~= texts(types@));
        spec
    }

    /// Every type of the list, in the order written.
    pub fn types(&self) -> (types: Vec<TypeRef>)
        ensures
            texts(types@) == self@.types,
    {
        let mut types: Vec<TypeRef> = Vec::new();
        types.push(self.first_type.clone());
        let n = self.intermediate_types.len();
        let mut i: usize = 0;
        while i < n
            invariant
                n == self.intermediate_types.len(),
                i <= n,
                types.len() == i + 1,
                types@[0]@ == self.first_type@,
                forall|j: int| 0 <= j < i ==> types@[j + 1]@ == self.intermediate_types@[j]@,
            decreases n - i,
        {
            types.push(self.intermediate_types[i].clone());
            i += 1;
        }
        types.push(self.last_type.clone());
        assert(texts(types@) =~= self@.types);
        types
    }
}

} // verus!
