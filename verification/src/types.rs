//! The shape of a field's declared type, as far as the mapping reads it.

use crate::text::str_eq;
use vstd::prelude::*;
use vstd::string::*;

verus! {

/// One argument between the angle brackets of a path segment.
#[derive(Debug)]
pub enum GenericArg {
    /// A type argument.
    Type(Type),
    /// A lifetime, a constant or a binding.
    Other,
}

/// What follows the identifier of a path segment.
#[derive(Debug)]
pub enum PathArgs {
    /// Nothing, as in `String`.
    Plain,
    /// `<A, B>`, as in `Vec<String>`.
    AngleBracketed(Vec<GenericArg>),
    /// `(A, B) -> C`, as in `Fn(u8) -> u8`.
    Parenthesized,
}

/// One segment of a type path.
#[derive(Debug)]
pub struct PathSegment {
    pub ident: String,
    pub arguments: PathArgs,
}

/// A declared type.
#[derive(Debug)]
pub enum Type {
    /// A path, such as `std::vec::Vec<u8>`.
    Path(Vec<PathSegment>),
    /// `&T` or `&mut T`.
    Reference { mutable: bool, elem: Box<Type> },
    /// `[T; N]`
    Array(Box<Type>),
    /// A type in invisible delimiters.
    Group(Box<Type>),
    /// `(T)`
    Paren(Box<Type>),
    /// `(A, B)`
    Tuple(Vec<Type>),
    /// Any other type.
    Other,
}

/// The identifiers of the standard collections that hold a list of items.
pub open spec fn is_list_collection_name(ident: Seq<char>) -> bool {
    ident == "Vec"@ || ident == "LinkedList"@ || ident == "VecDeque"@ || ident == "BinaryHeap"@
        || ident == "HashSet"@ || ident == "BTreeSet"@
}

/// The identifiers of the integer types.
pub open spec fn is_integer_name(ident: Seq<char>) -> bool {
    ident == "i8"@ || ident == "i16"@ || ident == "i32"@ || ident == "i64"@ || ident == "i128"@
        || ident == "isize"@ || ident == "u8"@ || ident == "u16"@ || ident == "u32"@ || ident
        == "u64"@ || ident == "u128"@ || ident == "usize"@
}

/// The identifiers of the numeric types.
pub open spec fn is_numeric_name(ident: Seq<char>) -> bool {
    is_integer_name(ident) || ident == "f32"@ || ident == "f64"@
}

/// The identifiers of the primitive types that are `Copy`.
pub open spec fn is_primitive_copy_name(ident: Seq<char>) -> bool {
    ident == "bool"@ || ident == "char"@ || is_numeric_name(ident)
}

fn is_integer_ident(ident: &str) -> (yes: bool)
    ensures
        yes == is_integer_name(ident@),
{
    str_eq(ident, "i8") || str_eq(ident, "i16") || str_eq(ident, "i32") || str_eq(ident, "i64")
        || str_eq(ident, "i128") || str_eq(ident, "isize") || str_eq(ident, "u8") || str_eq(
        ident,
        "u16",
    ) || str_eq(ident, "u32") || str_eq(ident, "u64") || str_eq(ident, "u128") || str_eq(
        ident,
        "usize",
    )
}

fn is_numeric_ident(ident: &str) -> (yes: bool)
    ensures
        yes == is_numeric_name(ident@),
{
    is_integer_ident(ident) || str_eq(ident, "f32") || str_eq(ident, "f64")
}

fn is_list_collection_ident(ident: &str) -> (yes: bool)
    ensures
        yes == is_list_collection_name(ident@),
{
    str_eq(ident, "Vec") || str_eq(ident, "LinkedList") || str_eq(ident, "VecDeque") || str_eq(
        ident,
        "BinaryHeap",
    ) || str_eq(ident, "HashSet") || str_eq(ident, "BTreeSet")
}

impl PathArgs {
    /// The number of arguments between angle brackets, if there are angle
    /// brackets.
    pub open spec fn angle_len(self) -> Option<nat> {
        match self {
            PathArgs::AngleBracketed(args) => Some(args@.len()),
            _ => None,
        }
    }
}

impl Type {
    /// The segments of a path type.
    pub open spec fn segments(self) -> Option<Seq<PathSegment>> {
        match self {
            Type::Path(segments) => Some(segments@),
            _ => None,
        }
    }

    /// The last segment of a path type.
    pub open spec fn last_segment(self) -> Option<PathSegment> {
        match self.segments() {
            Some(segments) => if segments.len() > 0 {
                Some(segments.last())
            } else {
                None
            },
            None => None,
        }
    }

    /// The type is a path whose last segment is `Option` with one argument.
    pub open spec fn option_shaped(self) -> bool {
        match self.last_segment() {
            Some(last) => last.ident@ == "Option"@ && last.arguments.angle_len() == Some(1nat),
            None => false,
        }
    }

    /// The first argument of the first segment of a path type, where that is
    /// a type.
    pub open spec fn inner(self) -> Option<Type> {
        match self.segments() {
            Some(segments) => if segments.len() > 0 {
                match segments[0].arguments {
                    PathArgs::AngleBracketed(args) => if args@.len() > 0 {
                        match args@[0] {
                            GenericArg::Type(ty) => Some(ty),
                            GenericArg::Other => None,
                        }
                    } else {
                        None
                    },
                    _ => None,
                }
            } else {
                None
            },
            None => None,
        }
    }

    /// The type whose name counts: what an `Option` holds, else the type
    /// itself. An `Option` whose argument cannot be read counts as itself.
    pub open spec fn named_type(self) -> Type {
        if self.option_shaped() && self.inner() is Some {
            self.inner()->0
        } else {
            self
        }
    }

    /// The type, or what it holds if it is an `Option`, is a path whose last
    /// segment is `ident`.
    pub open spec fn named(self, ident: Seq<char>) -> bool {
        match self.named_type().last_segment() {
            Some(last) => last.ident@ == ident,
            None => false,
        }
    }

    /// The type is a path whose last segment is one of the standard list
    /// collections with one argument.
    pub open spec fn list_shaped(self) -> bool {
        match self.last_segment() {
            Some(last) => is_list_collection_name(last.ident@) && last.arguments.angle_len()
                == Some(1nat),
            None => false,
        }
    }

    /// The type is a path whose last segment is a numeric type.
    pub open spec fn numeric(self) -> bool {
        match self.last_segment() {
            Some(last) => is_numeric_name(last.ident@),
            None => false,
        }
    }

    /// The type is a shared or mutable reference.
    pub open spec fn reference(self) -> bool {
        self is Reference
    }

    /// Values of the type can be copied bit by bit, as far as its shape
    /// shows: primitives, shared references, and arrays, tuples and options
    /// of such types.
    pub open spec fn primitive_copy(self) -> bool
        decreases self,
    {
        match self {
            Type::Array(elem) => elem.primitive_copy(),
            Type::Group(elem) => elem.primitive_copy(),
            Type::Paren(elem) => elem.primitive_copy(),
            Type::Reference { mutable, elem } => !mutable,
            Type::Tuple(elems) => forall|i: int|
                0 <= i < elems@.len() ==> (#[trigger] elems@[i]).primitive_copy(),
            Type::Path(segments) => if segments@.len() > 0 {
                let last = segments@.last();
                if is_primitive_copy_name(last.ident@) {
                    true
                } else if last.ident@ == "Option"@ {
                    match last.arguments {
                        PathArgs::AngleBracketed(args) => forall|i: int|
                            0 <= i < args@.len() ==> match #[trigger] args@[i] {
                                GenericArg::Type(ty) => ty.primitive_copy(),
                                GenericArg::Other => true,
                            },
                        _ => false,
                    }
                } else {
                    false
                }
            } else {
                false
            },
            Type::Other => false,
        }
    }
}

/// Questions about a declared type.
pub trait TypeExt {
    spec fn shape(&self) -> Type;

    /// The segments of a path type.
    fn path(&self) -> (segments: Option<&Vec<PathSegment>>)
        ensures
            match segments {
                Some(s) => self.shape().segments() == Some(s@),
                None => self.shape().segments() is None,
            },
    ;

    /// The arguments between the angle brackets of the last segment.
    fn arguments(&self) -> (args: Option<&Vec<GenericArg>>)
        ensures
            match args {
                Some(a) => self.shape().last_segment() is Some && self.shape().last_segment()->0.arguments
                    == PathArgs::AngleBracketed(*a),
                None => self.shape().last_segment() is None || !(
                self.shape().last_segment()->0.arguments is AngleBracketed),
            },
    ;

    /// Whether the type, or what it holds if it is an `Option`, is named
    /// `ident`.
    fn is_ident(&self, ident: &str) -> (yes: bool)
        ensures
            yes == self.shape().named(ident@),
    ;

    fn is_primitive_copy(&self) -> (yes: bool)
        ensures
            yes == self.shape().primitive_copy(),
    ;

    fn is_option(&self) -> (yes: bool)
        ensures
            yes == self.shape().option_shaped(),
    ;

    fn is_reference(&self) -> (yes: bool)
        ensures
            yes == self.shape().reference(),
    ;

    fn is_list_collection(&self) -> (yes: bool)
        ensures
            yes == self.shape().list_shaped(),
    ;

    fn is_numeric_type(&self) -> (yes: bool)
        ensures
            yes == self.shape().numeric(),
    ;

    fn get_inner_type(&self) -> (inner: Option<&Type>)
        ensures
            match inner {
                Some(ty) => self.shape().inner() == Some(*ty),
                None => self.shape().inner() is None,
            },
    ;
}

fn last_of(segments: &Vec<PathSegment>) -> (last: Option<&PathSegment>)
    ensures
        match last {
            Some(l) => segments@.len() > 0 && *l == segments@.last(),
            None => segments@.len() == 0,
        },
{
    if segments.len() > 0 {
        Some(&segments[segments.len() - 1])
    } else {
        None
    }
}

fn has_one_angle_argument(arguments: &PathArgs) -> (yes: bool)
    ensures
        yes == (arguments.angle_len() == Some(1nat)),
{
    match arguments {
        PathArgs::AngleBracketed(args) => args.len() == 1,
        _ => false,
    }
}

fn primitive_copy_of(ty: &Type) -> (yes: bool)
    ensures
        yes == ty.primitive_copy(),
    decreases ty,
{
    match ty {
        Type::Array(elem) => primitive_copy_of(elem),
        Type::Group(elem) => primitive_copy_of(elem),
        Type::Paren(elem) => primitive_copy_of(elem),
        Type::Reference { mutable, elem } => !*mutable,
        Type::Tuple(elems) => {
            let mut i: usize = 0;
            while i < elems.len()
                invariant
                    i <= elems.len(),
                    *ty == Type::Tuple(*elems),
                    forall|j: int| 0 <= j < i ==> (#[trigger] elems@[j]).primitive_copy(),
                decreases elems.len() - i,
            {
                proof {
                    assert(decreases_to!(*elems => elems[i as int]));
                    assert(ty is Tuple);
                    assert(ty->Tuple_0 == *elems);
                    assert(decreases_to!(ty => ty->Tuple_0));
                    assert(decreases_to!(ty => elems[i as int]));
                }
                if !primitive_copy_of(&elems[i]) {
                    assert(!elems@[i as int].primitive_copy());
                    return false;
                }
                i = i + 1;
            }
            true
        },
        Type::Path(segments) => {
            match last_of(segments) {
                None => false,
                Some(last) => {
                    if str_eq(last.ident.as_str(), "bool") || str_eq(last.ident.as_str(), "char")
                        || is_numeric_ident(last.ident.as_str()) {
                        true
                    } else if str_eq(last.ident.as_str(), "Option") {
                        match &last.arguments {
                            PathArgs::AngleBracketed(args) => {
                                let mut i: usize = 0;
                                while i < args.len()
                                    invariant
                                        i <= args.len(),
                                        *ty == Type::Path(*segments),
                                        segments@.len() > 0,
                                        *last == segments@.last(),
                                        last.arguments == PathArgs::AngleBracketed(*args),
                                        !is_primitive_copy_name(last.ident@),
                                        last.ident@ == "Option"@,
                                        forall|j: int|
                                            0 <= j < i ==> match #[trigger] args@[j] {
                                                GenericArg::Type(t) => t.primitive_copy(),
                                                GenericArg::Other => true,
                                            },
                                    decreases args.len() - i,
                                {
                                    match &args[i] {
                                        GenericArg::Type(t) => {
                                            proof {
                                                assert(ty is Path);
                                                assert(ty->Path_0 == *segments);
                                                assert(decreases_to!(ty => ty->Path_0));
                                                assert(decreases_to!(*segments => segments[segments.len() - 1]));
                                                assert(last.arguments is AngleBracketed);
                                                assert(last.arguments->AngleBracketed_0 == *args);
                                                assert(decreases_to!(last => last.arguments));
                                                assert(decreases_to!(last.arguments => last.arguments->AngleBracketed_0));
                                                assert(decreases_to!(*args => args[i as int]));
                                                assert(args[i as int] is Type);
                                                assert(decreases_to!(args[i as int] => args[i as int]->Type_0));
                                                assert(decreases_to!(ty => *t));
                                            }
                                            if !primitive_copy_of(t) {
                                                assert(args@[i as int] == GenericArg::Type(*t));
                                                return false;
                                            }
                                        },
                                        GenericArg::Other => {},
                                    }
                                    i = i + 1;
                                }
                                true
                            },
                            _ => false,
                        }
                    } else {
                        false
                    }
                },
            }
        },
        Type::Other => false,
    }
}

impl TypeExt for Type {
    open spec fn shape(&self) -> Type {
        *self
    }

    fn path(&self) -> (segments: Option<&Vec<PathSegment>>) {
        match self {
            Type::Path(segments) => Some(segments),
            _ => None,
        }
    }

    fn arguments(&self) -> (args: Option<&Vec<GenericArg>>) {
        match self.path() {
            None => None,
            Some(segments) => match last_of(segments) {
                None => None,
                Some(last) => match &last.arguments {
                    PathArgs::AngleBracketed(args) => Some(args),
                    _ => None,
                },
            },
        }
    }

    fn is_ident(&self, ident: &str) -> (yes: bool) {
        let mut ty = self;
        if self.is_option() {
            match self.get_inner_type() {
                Some(inner) => {
                    ty = inner;
                },
                None => {},
            }
        }
        match ty.path() {
            None => false,
            Some(segments) => match last_of(segments) {
                None => false,
                Some(last) => str_eq(last.ident.as_str(), ident),
            },
        }
    }

    fn is_primitive_copy(&self) -> (yes: bool) {
        primitive_copy_of(self)
    }

    fn is_option(&self) -> (yes: bool) {
        match self.path() {
            None => false,
            Some(segments) => match last_of(segments) {
                None => false,
                Some(last) => str_eq(last.ident.as_str(), "Option") && has_one_angle_argument(
                    &last.arguments,
                ),
            },
        }
    }

    fn is_reference(&self) -> (yes: bool) {
        match self {
            Type::Reference { .. } => true,
            _ => false,
        }
    }

    fn is_list_collection(&self) -> (yes: bool) {
        match self.path() {
            None => false,
            Some(segments) => match last_of(segments) {
                None => false,
                Some(last) => is_list_collection_ident(last.ident.as_str())
                    && has_one_angle_argument(&last.arguments),
            },
        }
    }

    fn is_numeric_type(&self) -> (yes: bool) {
        match self.path() {
            None => false,
            Some(segments) => match last_of(segments) {
                None => false,
                Some(last) => is_numeric_ident(last.ident.as_str()),
            },
        }
    }

    fn get_inner_type(&self) -> (inner: Option<&Type>) {
        match self.path() {
            None => None,
            Some(segments) => {
                if segments.len() == 0 {
                    return None;
                }
                match &segments[0].arguments {
                    PathArgs::AngleBracketed(args) => {
                        if args.len() == 0 {
                            return None;
                        }
                        match &args[0] {
                            GenericArg::Type(ty) => Some(ty),
                            GenericArg::Other => None,
                        }
                    },
                    _ => None,
                }
            },
        }
    }
}

} // verus!
