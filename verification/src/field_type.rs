//! The types of BAML fields, with their display names and optionality.

use vstd::prelude::*;

verus! {

/// The kind of a media value.
#[derive(Debug, PartialEq, Eq, Structural, Clone, Copy)]
pub enum MediaType {
    Image,
    Audio,
}

/// A primitive type.
#[derive(Debug, PartialEq, Eq, Structural, Clone, Copy)]
pub enum TypeValue {
    String,
    Int,
    Float,
    Bool,
    Null,
    Media(MediaType),
}

/// A literal value that a field may be restricted to.
#[derive(Debug)]
pub enum LiteralValue {
    Str(String),
    Int(i64),
    Bool(bool),
}

/// How strictly a constraint is enforced.
#[derive(Debug, PartialEq, Eq, Structural, Clone, Copy)]
pub enum ConstraintLevel {
    Check,
    Assert,
}

/// A user-written constraint on a field (it does not change the field's shape).
#[derive(Debug)]
pub struct Constraint {
    pub level: ConstraintLevel,
    pub expression: String,
    pub label: Option<String>,
}

/// The type of a field.
#[derive(Debug)]
pub enum FieldType {
    Primitive(TypeValue),
    Enum(String),
    Literal(LiteralValue),
    Class(String),
    List(Box<FieldType>),
    MapOf(Box<FieldType>, Box<FieldType>),
    Union(Vec<FieldType>),
    Tuple(Vec<FieldType>),
    Optional(Box<FieldType>),
    Constrained { base: Box<FieldType>, constraints: Vec<Constraint> },
}

/// The character of a decimal digit.
pub open spec fn digit_char(d: int) -> char {
    if d == 0 {
        '0'
    } else if d == 1 {
        '1'
    } else if d == 2 {
        '2'
    } else if d == 3 {
        '3'
    } else if d == 4 {
        '4'
    } else if d == 5 {
        '5'
    } else if d == 6 {
        '6'
    } else if d == 7 {
        '7'
    } else if d == 8 {
        '8'
    } else {
        '9'
    }
}

/// The decimal digits of a natural number, most significant first, without leading zeros.
pub open spec fn nat_digits(n: nat) -> Seq<char>
    decreases n,
{
    if n < 10 {
        seq![digit_char(n as int)]
    } else {
        nat_digits((n / 10) as nat).push(digit_char((n % 10) as int))
    }
}

/// The decimal text of an integer, with a leading `-` when it is negative.
pub open spec fn int_text(i: int) -> Seq<char> {
    if i < 0 {
        seq!['-'] + nat_digits((-i) as nat)
    } else {
        nat_digits(i as nat)
    }
}

fn digit_str(d: u64) -> (s: &'static str)
    requires
        d < 10,
    ensures
        s@ == seq![digit_char(d as int)],
{
    proof {
        reveal_strlit("0");
        reveal_strlit("1");
        reveal_strlit("2");
        reveal_strlit("3");
        reveal_strlit("4");
        reveal_strlit("5");
        reveal_strlit("6");
        reveal_strlit("7");
        reveal_strlit("8");
        reveal_strlit("9");
    }
    let s = if d == 0 {
        "0"
    } else if d == 1 {
        "1"
    } else if d == 2 {
        "2"
    } else if d == 3 {
        "3"
    } else if d == 4 {
        "4"
    } else if d == 5 {
        "5"
    } else if d == 6 {
        "6"
    } else if d == 7 {
        "7"
    } else if d == 8 {
        "8"
    } else {
        "9"
    };
    assert(s@ =~= seq![digit_char(d as int)]);
    s
}

/// The decimal text of an unsigned integer.
pub fn u64_text(n: u64) -> (r: String)
    ensures
        r@ == nat_digits(n as nat),
    decreases n,
{
    if n < 10 {
        String::from_str(digit_str(n))
    } else {
        let mut s = u64_text(n / 10);
        s.append(digit_str(n % 10));
        s
    }
}

/// The decimal text of a signed integer (`i64`'s `Display`).
pub fn i64_text(n: i64) -> (r: String)
    ensures
        r@ == int_text(n as int),
{
    if n < 0 {
        let m: u64 = (0i128 - (n as i128)) as u64;
        let digits = u64_text(m);
        let mut s = String::from_str("-");
        proof {
            reveal_strlit("-");
        }
        s.append(digits.as_str());
        assert(s@ =~= int_text(n as int));
        s
    } else {
        u64_text(n as u64)
    }
}

impl MediaType {
    /// The display name of the media kind.
    pub open spec fn spec_name(self) -> Seq<char> {
        match self {
            MediaType::Image => "image"@,
            MediaType::Audio => "audio"@,
        }
    }

    /// The display name of the media kind.
    pub fn display_name(&self) -> (r: String)
        ensures
            r@ == self.spec_name(),
    {
        match self {
            MediaType::Image => String::from_str("image"),
            MediaType::Audio => String::from_str("audio"),
        }
    }
}

impl TypeValue {
    /// The display name of the primitive type.
    pub open spec fn spec_name(self) -> Seq<char> {
        match self {
            TypeValue::String => "string"@,
            TypeValue::Int => "int"@,
            TypeValue::Float => "float"@,
            TypeValue::Bool => "bool"@,
            TypeValue::Null => "null"@,
            TypeValue::Media(m) => m.spec_name(),
        }
    }

    /// The display name of the primitive type.
    pub fn display_name(&self) -> (r: String)
        ensures
            r@ == self.spec_name(),
    {
        match self {
            TypeValue::String => String::from_str("string"),
            TypeValue::Int => String::from_str("int"),
            TypeValue::Float => String::from_str("float"),
            TypeValue::Bool => String::from_str("bool"),
            TypeValue::Null => String::from_str("null"),
            TypeValue::Media(m) => m.display_name(),
        }
    }
}

impl LiteralValue {
    /// The display text of the literal: strings in double quotes, integers in decimal.
    pub open spec fn spec_text(self) -> Seq<char> {
        match self {
            LiteralValue::Str(s) => "\""@ + s@ + "\""@,
            LiteralValue::Int(i) => int_text(i as int),
            LiteralValue::Bool(b) => if b {
                "true"@
            } else {
                "false"@
            },
        }
    }

    /// The display text of the literal.
    pub fn text(&self) -> (r: String)
        ensures
            r@ == self.spec_text(),
    {
        match self {
            LiteralValue::Str(s) => {
                let mut r = String::from_str("\"");
                r.append(s.as_str());
                r.append("\"");
                r
            },
            LiteralValue::Int(i) => i64_text(*i),
            LiteralValue::Bool(b) => if *b {
                String::from_str("true")
            } else {
                String::from_str("false")
            },
        }
    }
}

impl FieldType {
    /// The display name of a type, as BAML writes it (`string[]`, `map<string, int>`,
    /// `(int | null)`, `Foo?`, ...).
    pub open spec fn spec_display_name(self) -> Seq<char>
        decreases self,
    {
        match self {
            FieldType::Enum(n) => n@,
            FieldType::Class(n) => n@,
            FieldType::Primitive(t) => t.spec_name(),
            FieldType::Literal(v) => v.spec_text(),
            FieldType::Union(cs) => "("@ + joined_display_names(cs@, " | "@) + ")"@,
            FieldType::Tuple(cs) => "("@ + joined_display_names(cs@, ", "@) + ")"@,
            FieldType::MapOf(k, v) => "map<"@ + k.spec_display_name() + ", "@ + v.spec_display_name()
                + ">"@,
            FieldType::List(t) => t.spec_display_name() + "[]"@,
            FieldType::Optional(t) => t.spec_display_name() + "?"@,
            FieldType::Constrained { base, .. } => base.spec_display_name(),
        }
    }

    /// Whether the type admits `null`.
    pub open spec fn spec_is_optional(self) -> bool
        decreases self,
    {
        match self {
            FieldType::Optional(_) => true,
            FieldType::Primitive(TypeValue::Null) => true,
            FieldType::Union(ts) => any_optional(ts@),
            FieldType::Constrained { base, .. } => base.spec_is_optional(),
            _ => false,
        }
    }
}

/// The display names of the types, separated by `sep`.
pub open spec fn joined_display_names(ts: Seq<FieldType>, sep: Seq<char>) -> Seq<char>
    decreases ts,
{
    if ts.len() == 0 {
        Seq::empty()
    } else if ts.len() == 1 {
        ts[0].spec_display_name()
    } else {
        joined_display_names(ts.drop_last(), sep) + sep + ts.last().spec_display_name()
    }
}

/// Some type of the sequence admits `null`.
pub open spec fn any_optional(ts: Seq<FieldType>) -> bool
    decreases ts,
{
    if ts.len() == 0 {
        false
    } else {
        any_optional(ts.drop_last()) || ts.last().spec_is_optional()
    }
}

impl FieldType {
    /// The display name of the type.
    pub fn display_name(&self) -> (r: String)
        ensures
            r@ == self.spec_display_name(),
        decreases self,
    {
        let (choices, sep): (&Vec<FieldType>, &str) = match self {
            FieldType::Enum(n) => {
                return n.clone();
            },
            FieldType::Class(n) => {
                return n.clone();
            },
            FieldType::Primitive(t) => {
                return t.display_name();
            },
            FieldType::Literal(v) => {
                return v.text();
            },
            FieldType::MapOf(k, v) => {
                let mut s = String::from_str("map<");
                let kn = k.display_name();
                let vn = v.display_name();
                s.append(kn.as_str());
                s.append(", ");
                s.append(vn.as_str());
                s.append(">");
                return s;
            },
            FieldType::List(t) => {
                let mut s = t.display_name();
                s.append("[]");
                return s;
            },
            FieldType::Optional(t) => {
                let mut s = t.display_name();
                s.append("?");
                return s;
            },
            FieldType::Constrained { base, .. } => {
                return base.display_name();
            },
            FieldType::Union(cs) => (cs, " | "),
            FieldType::Tuple(cs) => (cs, ", "),
        };
        let mut s = String::from_str("(");
        let mut i: usize = 0;
        while i < choices.len()
            invariant
                0 <= i <= choices@.len(),
                self matches FieldType::Union(cs) ==> cs == choices && sep@ == " | "@,
                self matches FieldType::Tuple(cs) ==> cs == choices && sep@ == ", "@,
                self is Union || self is Tuple,
                s@ == "("@ + joined_display_names(choices@.take(i as int), sep@),
            decreases choices@.len() - i,
        {
            let ghost prev = choices@.take(i as int);
            assert(choices@.take(i + 1).drop_last() =~= prev);
            if i > 0 {
                s.append(sep);
            }
            let name = choices[i].display_name();
            s.append(name.as_str());
            proof {
                let t = choices@.take(i + 1);
                if i == 0 {
                    assert(s@ =~= "("@ + joined_display_names(t, sep@));
                } else {
                    assert(s@ =~= "("@ + joined_display_names(t, sep@));
                }
            }
            i += 1;
        }
        s.append(")");
        assert(choices@.take(choices@.len() as int) =~= choices@);
        s
    }

    /// Whether the type admits `null`: an optional type, `null` itself, a union with an
    /// optional member, or a constrained optional type.
    pub fn is_optional(&self) -> (r: bool)
        ensures
            r == self.spec_is_optional(),
        decreases self,
    {
        match self {
            FieldType::Optional(_) => true,
            FieldType::Primitive(TypeValue::Null) => true,
            FieldType::Union(ts) => {
                let mut i: usize = 0;
                while i < ts.len()
                    invariant
                        0 <= i <= ts@.len(),
                        self matches FieldType::Union(cs) && cs == ts,
                        !any_optional(ts@.take(i as int)),
                    decreases ts@.len() - i,
                {
                    assert(ts@.take(i + 1).drop_last() =~= ts@.take(i as int));
                    if ts[i].is_optional() {
                        proof {
                            lemma_any_optional_member(ts@, i as int);
                        }
                        return true;
                    }
                    i += 1;
                }
                assert(ts@.take(ts@.len() as int) =~= ts@);
                false
            },
            FieldType::Constrained { base, .. } => base.is_optional(),
            _ => false,
        }
    }
}

/// A sequence with an optional member is optional as a whole.
pub proof fn lemma_any_optional_member(ts: Seq<FieldType>, i: int)
    requires
        0 <= i < ts.len(),
        ts[i].spec_is_optional(),
    ensures
        any_optional(ts),
    decreases ts.len(),
{
    if i < ts.len() - 1 {
        lemma_any_optional_member(ts.drop_last(), i);
    }
}

} // verus!
