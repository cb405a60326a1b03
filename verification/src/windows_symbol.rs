//! Decorated names ("mangled symbols") of C++ member functions under the
//! Microsoft x64 ABI, computed from a bound member function's prototype.

use vstd::prelude::*;
use crate::text::{
    chars_of, ends_with, find_sep_from, push_char, rfind_sep, starts_with, str_eq, trim,
    first_sep_from, has_prefix, lemma_last_sep_before, has_suffix, lemma_first_sep_from, lemma_trim_len, sep_at,
    spec_rfind_sep, spec_split_sep, spec_trim,
};

verus! {

// ---------------------------------------------------------------------------
// The prototype of a bound member function, as the mangler reads it.
// ---------------------------------------------------------------------------

/// What kind of member function a prototype declares.
#[derive(Clone, Copy, Debug, PartialEq, Eq, Structural)]
pub enum FunctionType {
    Normal,
    Constructor,
    Destructor,
}

impl Default for FunctionType {
    fn default() -> (r: Self)
        ensures
            r == FunctionType::Normal,
    {
        FunctionType::Normal
    }
}

/// The C++ access of a member function.
#[derive(Clone, Copy, Debug, PartialEq, Eq, Structural)]
pub enum AccessModifier {
    Public,
    Protected,
    Private,
}

impl Default for AccessModifier {
    fn default() -> (r: Self)
        ensures
            r == AccessModifier::Public,
    {
        AccessModifier::Public
    }
}

/// A C++ type, by its spelling (such as `char const*` or `cocos2d::CCSet*`).
#[derive(Clone, Debug)]
pub struct Type {
    pub name: String,
}

impl Type {
    /// The type spelled `name`.
    pub fn new(name: &str) -> (t: Type)
        ensures
            t.name@ == name@,
    {
        Type { name: name.to_owned() }
    }
}

impl Default for Type {
    fn default() -> (r: Self)
        ensures
            r.name@ == Seq::<char>::empty(),
    {
        Type { name: String::new() }
    }
}

/// One parameter of a function.
#[derive(Clone, Debug)]
pub struct Arg {
    pub ty: Type,
    pub name: String,
}

/// The prototype of a member function.
#[derive(Clone, Debug)]
pub struct MemberFunctionProto {
    pub ret: Type,
    pub args: Vec<Arg>,
    pub name: String,
    pub fn_type: FunctionType,
    pub access: AccessModifier,
    pub is_const: bool,
    pub is_virtual: bool,
    pub is_static: bool,
}

impl Default for MemberFunctionProto {
    fn default() -> (r: Self)
        ensures
            r.ret.name@ == Seq::<char>::empty(),
            r.args@ == Seq::<Arg>::empty(),
            r.name@ == Seq::<char>::empty(),
            r.fn_type == FunctionType::Normal,
            r.access == AccessModifier::Public,
            !r.is_const,
            !r.is_virtual,
            !r.is_static,
    {
        MemberFunctionProto {
            ret: Type::default(),
            args: Vec::new(),
            name: String::new(),
            fn_type: FunctionType::default(),
            access: AccessModifier::default(),
            is_const: false,
            is_virtual: false,
            is_static: false,
        }
    }
}

/// A member function bound to an address in the game binary.
#[derive(Clone, Debug)]
pub struct FunctionBindField {
    pub prototype: MemberFunctionProto,
}

impl Default for FunctionBindField {
    fn default() -> (r: Self)
        ensures
            r.prototype.ret.name@ == Seq::<char>::empty(),
            r.prototype.args@ == Seq::<Arg>::empty(),
            r.prototype.name@ == Seq::<char>::empty(),
            r.prototype.fn_type == FunctionType::Normal,
            r.prototype.access == AccessModifier::Public,
            !r.prototype.is_const,
            !r.prototype.is_virtual,
            !r.prototype.is_static,
    {
        FunctionBindField { prototype: MemberFunctionProto::default() }
    }
}

// ---------------------------------------------------------------------------
// Specification of the decoration.
// ---------------------------------------------------------------------------

/// Each piece of a qualified name followed by `@`, innermost piece first.
pub open spec fn mangled_parts(parts: Seq<Seq<char>>) -> Seq<char>
    decreases parts.len(),
{
    if parts.len() == 0 {
        Seq::empty()
    } else {
        mangled_parts(parts.drop_first()) + parts[0].push('@')
    }
}

/// A (possibly qualified) name as the decoration spells it: `a::b::C` becomes
/// `C@b@a@`.
pub open spec fn spec_mangle_ident(s: Seq<char>) -> Seq<char> {
    mangled_parts(spec_split_sep(s))
}

/// A name split at its last `::` into the short name and its namespace.
pub open spec fn spec_split_qualified(s: Seq<char>) -> (Seq<char>, Option<Seq<char>>) {
    match spec_rfind_sep(s) {
        Some(i) => (s.skip(i + 2), Some(s.take(i))),
        None => (s, None),
    }
}

pub open spec fn const_prefix() -> Seq<char> {
    seq!['c', 'o', 'n', 's', 't', ' ']
}

pub open spec fn const_suffix() -> Seq<char> {
    seq![' ', 'c', 'o', 'n', 's', 't']
}

/// A type with its `const ` prefixes and ` const` suffixes removed (the rest
/// trimmed after each removal), and whether any was removed.
pub open spec fn spec_strip_const(t: Seq<char>) -> (Seq<char>, bool)
    decreases t.len(),
{
    if has_prefix(t, const_prefix()) {
        proof {
            lemma_trim_len(t.skip(6));
        }
        (spec_strip_const(spec_trim(t.skip(6))).0, true)
    } else if has_suffix(t, const_suffix()) {
        proof {
            lemma_trim_len(t.take(t.len() - 6));
        }
        (spec_strip_const(spec_trim(t.take(t.len() - 6))).0, true)
    } else {
        (t, false)
    }
}

/// The one- or two-letter code of a builtin type.
pub open spec fn spec_primitive_code(t: Seq<char>) -> Option<Seq<char>> {
    if t == "void"@ {
        Some("X"@)
    } else if t == "bool"@ {
        Some("_N"@)
    } else if t == "char"@ {
        Some("D"@)
    } else if t == "unsigned char"@ {
        Some("E"@)
    } else if t == "short"@ {
        Some("F"@)
    } else if t == "unsigned short"@ {
        Some("G"@)
    } else if t == "int"@ {
        Some("H"@)
    } else if t == "unsigned int"@ {
        Some("I"@)
    } else if t == "long"@ {
        Some("J"@)
    } else if t == "unsigned long"@ {
        Some("K"@)
    } else if t == "float"@ {
        Some("M"@)
    } else if t == "double"@ {
        Some("N"@)
    } else {
        None
    }
}

/// A class named from inside `current_class`: the class itself is `12@`, a
/// class of the same namespace is `Name@2@`, any other its full name and `@`.
pub open spec fn spec_encode_class_path(current_class: Seq<char>, ty: Seq<char>) -> Seq<char> {
    let (current_short, current_namespace) = spec_split_qualified(current_class);
    let (short, namespace) = spec_split_qualified(ty);
    if namespace == current_namespace {
        if short == current_short {
            "12@"@
        } else {
            short + "@2@"@
        }
    } else {
        spec_mangle_ident(ty) + "@"@
    }
}

/// An enum type named from inside `current_class`.
pub open spec fn spec_encode_enum_type(current_class: Seq<char>, ty: Seq<char>) -> Seq<char> {
    let (short, namespace) = spec_split_qualified(ty);
    if namespace == spec_split_qualified(current_class).1 {
        "W4"@ + short + "@2@"@
    } else {
        "W4"@ + spec_mangle_ident(ty) + "@"@
    }
}

/// The qualifier letter: `B` for const, `A` otherwise.
pub open spec fn cv_letter(is_const: bool) -> char {
    if is_const {
        'B'
    } else {
        'A'
    }
}

/// A pointer type (one that ends in `*`), or `None` for any other type.
pub open spec fn spec_encode_pointer_type(current_class: Seq<char>, ty: Seq<char>) -> Option<
    Seq<char>,
> {
    if ty.len() > 0 && ty.last() == '*' {
        let (inner, is_const) = spec_strip_const(spec_trim(ty.drop_last()));
        match spec_primitive_code(inner) {
            Some(code) => Some("PE"@ + seq![cv_letter(is_const)] + code),
            None => Some(
                "PE"@ + seq![cv_letter(is_const), 'V'] + spec_encode_class_path(current_class, inner),
            ),
        }
    } else {
        None
    }
}

/// A type passed or returned by value: a const-qualified type has no encoding;
/// then a pointer, a builtin, and (where enums are allowed) an enum.
pub open spec fn spec_encode_value_type(
    current_class: Seq<char>,
    ty: Seq<char>,
    allow_enum: bool,
) -> Option<Seq<char>> {
    let (ty, is_const) = spec_strip_const(ty);
    if is_const {
        None
    } else if spec_encode_pointer_type(current_class, ty) is Some {
        spec_encode_pointer_type(current_class, ty)
    } else if spec_primitive_code(ty) is Some {
        spec_primitive_code(ty)
    } else if allow_enum {
        Some(spec_encode_enum_type(current_class, ty))
    } else {
        None
    }
}

/// The first index `>= k` at which `x` occurs in `ss`.
pub open spec fn first_index_from(ss: Seq<Seq<char>>, x: Seq<char>, k: nat) -> Option<int>
    decreases ss.len() - k,
{
    if k >= ss.len() {
        None
    } else if ss[k as int] == x {
        Some(k as int)
    } else {
        first_index_from(ss, x, k + 1)
    }
}

proof fn lemma_first_index_from(ss: Seq<Seq<char>>, x: Seq<char>, k: nat)
    ensures
        first_index_from(ss, x, k) matches Some(i) ==> k <= i < ss.len() && ss[i] == x,
    decreases ss.len() - k,
{
    if k < ss.len() && ss[k as int] != x {
        lemma_first_index_from(ss, x, k + 1);
    }
}

/// The decimal digit of `i`, for `0 <= i < 10`.
pub open spec fn digit_char(i: int) -> char {
    (48 + i) as char
}

/// A parameter type, and the encodings seen so far after it: a `bool` already
/// seen among the first ten encodings is written as the digit of its first
/// index; any other encoding is written out and remembered.
pub open spec fn spec_encode_arg_type(
    current_class: Seq<char>,
    ty: Seq<char>,
    seen: Seq<Seq<char>>,
) -> Option<(Seq<char>, Seq<Seq<char>>)> {
    match spec_encode_value_type(current_class, ty, true) {
        None => None,
        Some(e) => {
            let found = first_index_from(seen, e, 0);
            if e == "_N"@ && found is Some && found->0 < 10 {
                Some((seq![digit_char(found->0)], seen))
            } else {
                Some((e, seen.push(e)))
            }
        },
    }
}

/// A return type: enums have no encoding there.
pub open spec fn spec_encode_return_type(current_class: Seq<char>, ty: Seq<char>) -> Option<
    Seq<char>,
> {
    spec_encode_value_type(current_class, ty, false)
}

/// The parameter types in order, each after those before it.
pub open spec fn spec_encode_args(
    current_class: Seq<char>,
    tys: Seq<Seq<char>>,
    seen: Seq<Seq<char>>,
) -> Option<Seq<char>>
    decreases tys.len(),
{
    if tys.len() == 0 {
        Some(Seq::empty())
    } else {
        match spec_encode_arg_type(current_class, tys[0], seen) {
            None => None,
            Some((e, seen2)) => match spec_encode_args(current_class, tys.drop_first(), seen2) {
                None => None,
                Some(rest) => Some(e + rest),
            },
        }
    }
}

/// The access letter of a member function.
pub open spec fn spec_access_token(is_virtual: bool, access: AccessModifier) -> char {
    if is_virtual {
        match access {
            AccessModifier::Private => 'E',
            AccessModifier::Protected => 'M',
            AccessModifier::Public => 'U',
        }
    } else {
        match access {
            AccessModifier::Private => 'A',
            AccessModifier::Protected => 'I',
            AccessModifier::Public => 'Q',
        }
    }
}

/// The type names of the parameters, in order.
pub open spec fn arg_types(args: Seq<Arg>) -> Seq<Seq<char>> {
    args.map_values(|a: Arg| a.ty.name@)
}

/// The views of a list of strings.
pub open spec fn views(v: Seq<String>) -> Seq<Seq<char>> {
    v.map_values(|s: String| s@)
}

/// The start of a decorated name: the function's name, class and qualifiers.
pub open spec fn spec_symbol_head(class_name: Seq<char>, p: MemberFunctionProto) -> Seq<char> {
    let access = spec_access_token(p.is_virtual, p.access);
    let class = spec_mangle_ident(class_name);
    match p.fn_type {
        FunctionType::Constructor => "??0"@ + class + seq!['@', access] + "EAA"@,
        FunctionType::Destructor => "??1"@ + class + seq!['@', access] + "EAA"@,
        FunctionType::Normal => if p.is_static {
            "?"@ + p.name@ + seq!['@'] + class + "@SA"@
        } else {
            "?"@ + p.name@ + seq!['@'] + class + seq!['@', access, 'E', cv_letter(p.is_const), 'A']
        },
    }
}

/// The decorated name of a member function of `class_name`, or `None` where
/// its return type or a parameter type has no encoding.
pub open spec fn spec_generate_windows_symbol(
    class_name: Seq<char>,
    p: MemberFunctionProto,
) -> Option<Seq<char>> {
    let head = spec_symbol_head(class_name, p);
    let with_ret = if p.fn_type == FunctionType::Normal {
        match spec_encode_return_type(class_name, p.ret.name@) {
            Some(r) => Some(head + r),
            None => None,
        }
    } else {
        Some(head)
    };
    match with_ret {
        None => None,
        Some(h) => if p.args.len() == 0 {
            Some(h + "XZ"@)
        } else {
            match spec_encode_args(class_name, arg_types(p.args@), Seq::empty()) {
                Some(a) => Some(h + a + "@Z"@),
                None => None,
            }
        },
    }
}

// ---------------------------------------------------------------------------
// Names.
// ---------------------------------------------------------------------------

/// Searching `s` from `p + k` is searching its suffix from `k`.
proof fn lemma_first_sep_skip(s: Seq<char>, p: nat, k: nat)
    requires
        p <= s.len(),
    ensures
        first_sep_from(s.skip(p as int), k) == match first_sep_from(s, p + k) {
            Some(i) => Some(i - p),
            None => None,
        },
    decreases s.len() - p - k,
{
    let t = s.skip(p as int);
    if k + 1 < t.len() && !sep_at(t, k as int) {
        assert(!sep_at(s, (p + k) as int));
        lemma_first_sep_skip(s, p, k + 1);
    } else if k + 1 < t.len() {
        assert(sep_at(s, (p + k) as int));
    }
}

proof fn lemma_mangled_parts_cons(a: Seq<char>, rest: Seq<Seq<char>>)
    ensures
        mangled_parts(seq![a] + rest) == mangled_parts(rest) + a.push('@'),
{
    assert((seq![a] + rest).drop_first() =~= rest);
}

/// The decoration of the name that starts at character `pos` of `s`.
fn mangle_suffix(s: &str, cs: &Vec<char>, pos: usize) -> (r: String)
    requires
        cs@ == s@,
        pos <= s@.len(),
    ensures
        r@ == spec_mangle_ident(s@.skip(pos as int)),
    decreases s@.len() - pos,
{
    let n = cs.len();
    proof {
        lemma_first_sep_skip(s@, pos as nat, 0);
        lemma_first_sep_from(s@, pos as nat);
    }
    let ghost t = s@.skip(pos as int);
    match find_sep_from(cs, pos) {
        None => {
            let mut r = String::new();
            r.append(s.substring_char(pos, n));
            push_char(&mut r, '@');
            proof {
                assert(spec_split_sep(t) == seq![t]);
                lemma_mangled_parts_cons(t, Seq::empty());
                assert(seq![t] + Seq::<Seq<char>>::empty() =~= seq![t]);
                assert(s@.subrange(pos as int, n as int) =~= t);
            }
            r
        },
        Some(i) => {
            let mut r = mangle_suffix(s, cs, i + 2);
            r.append(s.substring_char(pos, i));
            push_char(&mut r, '@');
            proof {
                let k = i - pos;
                assert(t.skip(k + 2) =~= s@.skip(i + 2));
                assert(t.take(k) =~= s@.subrange(pos as int, i as int));
                assert(spec_split_sep(t) == seq![t.take(k)] + spec_split_sep(t.skip(k + 2)));
                lemma_mangled_parts_cons(t.take(k), spec_split_sep(t.skip(k + 2)));
            }
            r
        },
    }
}

/// `a::b::C` becomes `C@b@a@`: the pieces between the `::` separators, innermost
/// first, each followed by `@`.
pub fn mangle_ident(s: &str) -> (r: String)
    ensures
        r@ == spec_mangle_ident(s@),
{
    let cs = chars_of(s);
    let r = mangle_suffix(s, &cs, 0);
    assert(s@.skip(0) =~= s@);
    r
}

/// The view of an optional string.
pub open spec fn opt_view(o: Option<&str>) -> Option<Seq<char>> {
    match o {
        Some(x) => Some(x@),
        None => None,
    }
}

/// Splits a name at its last `::` into the short name and the namespace.
pub fn split_qualified(name: &str) -> (r: (&str, Option<&str>))
    ensures
        (r.0@, opt_view(r.1)) == spec_split_qualified(name@),
{
    let cs = chars_of(name);
    let n = cs.len();
    match rfind_sep(&cs) {
        Some(index) => {
            proof {
                lemma_last_sep_before(name@, n as nat);
            }
            let short = name.substring_char(index + 2, n);
            let namespace = name.substring_char(0, index);
            assert(short@ =~= name@.skip(index + 2));
            assert(namespace@ =~= name@.take(index as int));
            (short, Some(namespace))
        },
        None => (name, None),
    }
}

/// Removes the `const ` prefixes and ` const` suffixes of a type, trimming what
/// is left after each, and tells whether there were any.
pub fn strip_const(ty: &str) -> (r: (&str, bool))
    ensures
        (r.0@, r.1) == spec_strip_const(ty@),
{
    proof {
        reveal_strlit("const ");
        reveal_strlit(" const");
        assert("const "@ =~= const_prefix());
        assert(" const"@ =~= const_suffix());
    }
    let mut ty = ty;
    let ghost orig = ty@;
    let mut is_const = false;
    loop
        invariant
            spec_strip_const(orig).0 == spec_strip_const(ty@).0,
            spec_strip_const(orig).1 == (is_const || spec_strip_const(ty@).1),
            "const "@ == const_prefix(),
            " const"@ == const_suffix(),
        ensures
            spec_strip_const(ty@) == (ty@, false),
            spec_strip_const(orig).0 == ty@,
            spec_strip_const(orig).1 == is_const,
        decreases ty@.len(),
    {
        let cs = chars_of(ty);
        let n = cs.len();
        if starts_with(&cs, "const ") {
            proof {
                lemma_trim_len(ty@.skip(6));
            }
            let rest = ty.substring_char(6, n);
            assert(rest@ =~= ty@.skip(6));
            ty = trim(rest);
            is_const = true;
        } else if ends_with(&cs, " const") {
            proof {
                lemma_trim_len(ty@.take(n - 6));
            }
            let rest = ty.substring_char(0, n - 6);
            assert(rest@ =~= ty@.take(n - 6));
            ty = trim(rest);
            is_const = true;
        } else {
            break;
        }
    }
    (ty, is_const)
}

/// The code of a builtin type, or `None` for any other type.
pub fn primitive_code(ty: &str) -> (r: Option<&'static str>)
    ensures
        opt_view(r) == spec_primitive_code(ty@),
{
    if str_eq(ty, "void") {
        Some("X")
    } else if str_eq(ty, "bool") {
        Some("_N")
    } else if str_eq(ty, "char") {
        Some("D")
    } else if str_eq(ty, "unsigned char") {
        Some("E")
    } else if str_eq(ty, "short") {
        Some("F")
    } else if str_eq(ty, "unsigned short") {
        Some("G")
    } else if str_eq(ty, "int") {
        Some("H")
    } else if str_eq(ty, "unsigned int") {
        Some("I")
    } else if str_eq(ty, "long") {
        Some("J")
    } else if str_eq(ty, "unsigned long") {
        Some("K")
    } else if str_eq(ty, "float") {
        Some("M")
    } else if str_eq(ty, "double") {
        Some("N")
    } else {
        None
    }
}

/// Whether two optional strings are both absent or hold the same characters.
fn opt_str_eq(a: Option<&str>, b: Option<&str>) -> (r: bool)
    ensures
        r == (opt_view(a) == opt_view(b)),
{
    match (a, b) {
        (Some(x), Some(y)) => str_eq(x, y),
        (None, None) => true,
        _ => false,
    }
}

/// The view of an optional owned string.
pub open spec fn opt_string_view(o: Option<String>) -> Option<Seq<char>> {
    match o {
        Some(x) => Some(x@),
        None => None,
    }
}

// ---------------------------------------------------------------------------
// Types.
// ---------------------------------------------------------------------------

/// A class as named from inside `current_class`.
pub fn encode_class_path(current_class: &str, ty: &str) -> (r: String)
    ensures
        r@ == spec_encode_class_path(current_class@, ty@),
{
    let (current_short, current_namespace) = split_qualified(current_class);
    let (short, namespace) = split_qualified(ty);
    if opt_str_eq(namespace, current_namespace) {
        if str_eq(short, current_short) {
            "12@".to_owned()
        } else {
            let mut r = short.to_owned();
            r.append("@2@");
            r
        }
    } else {
        let mut r = mangle_ident(ty);
        r.append("@");
        r
    }
}

/// An enum type as named from inside `current_class`.
pub fn encode_enum_type(current_class: &str, ty: &str) -> (r: String)
    ensures
        r@ == spec_encode_enum_type(current_class@, ty@),
{
    let (_current_short, current_namespace) = split_qualified(current_class);
    let (short, namespace) = split_qualified(ty);
    if opt_str_eq(namespace, current_namespace) {
        let mut r = "W4".to_owned();
        r.append(short);
        r.append("@2@");
        r
    } else {
        let mut r = "W4".to_owned();
        let m = mangle_ident(ty);
        r.append(m.as_str());
        r.append("@");
        r
    }
}

/// A pointer type, or `None` where `ty` does not end in `*`.
pub fn encode_pointer_type(current_class: &str, ty: &str) -> (r: Option<String>)
    ensures
        opt_string_view(r) == spec_encode_pointer_type(current_class@, ty@),
{
    let cs = chars_of(ty);
    let n = cs.len();
    if n == 0 || cs[n - 1] != '*' {
        return None;
    }
    let before = ty.substring_char(0, n - 1);
    assert(before@ =~= ty@.drop_last());
    let (inner, is_const) = strip_const(trim(before));
    let cv = if is_const {
        'B'
    } else {
        'A'
    };
    match primitive_code(inner) {
        Some(code) => {
            let mut r = "PE".to_owned();
            push_char(&mut r, cv);
            r.append(code);
            assert(r@ =~= "PE"@ + seq![cv] + code@);
            Some(r)
        },
        None => {
            let path = encode_class_path(current_class, inner);
            let mut r = "PE".to_owned();
            push_char(&mut r, cv);
            push_char(&mut r, 'V');
            r.append(path.as_str());
            assert(r@ =~= "PE"@ + seq![cv, 'V'] + path@);
            Some(r)
        },
    }
}

/// A type passed or returned by value, or `None` where it has no encoding.
pub fn encode_value_type(current_class: &str, ty: &str, allow_enum: bool) -> (r: Option<String>)
    ensures
        opt_string_view(r) == spec_encode_value_type(current_class@, ty@, allow_enum),
{
    let (ty, is_const) = strip_const(ty);
    if is_const {
        return None;
    }
    if let Some(pointer) = encode_pointer_type(current_class, ty) {
        return Some(pointer);
    }
    if let Some(code) = primitive_code(ty) {
        return Some(code.to_owned());
    }
    if allow_enum {
        return Some(encode_enum_type(current_class, ty));
    }
    None
}

/// The index of the first string of `seen` equal to `x`.
fn position(seen: &Vec<String>, x: &String) -> (r: Option<usize>)
    ensures
        match first_index_from(views(seen@), x@, 0) {
            Some(i) => r == Some(i as usize),
            None => r is None,
        },
{
    let mut j: usize = 0;
    while j < seen.len()
        invariant
            j <= seen@.len(),
            first_index_from(views(seen@), x@, 0) == first_index_from(views(seen@), x@, j as nat),
        decreases seen@.len() - j,
    {
        if str_eq(seen[j].as_str(), x.as_str()) {
            return Some(j);
        }
        j = j + 1;
    }
    None
}

/// A parameter type, given the encodings of the parameters before it: a `bool`
/// already written among the first ten encodings becomes the digit of that
/// index; anything else is written out and added to `seen`.
pub fn encode_arg_type(current_class: &str, ty: &str, seen: &mut Vec<String>) -> (r: Option<String>)
    ensures
        match spec_encode_arg_type(current_class@, ty@, views(old(seen)@)) {
            Some((e, seen2)) => r is Some && r->0@ == e && views(final(seen)@) == seen2,
            None => r is None && final(seen)@ == old(seen)@,
        },
{
    let encoded = match encode_value_type(current_class, ty, true) {
        Some(e) => e,
        None => return None,
    };
    if str_eq(encoded.as_str(), "_N") {
        proof {
            lemma_first_index_from(views(seen@), encoded@, 0);
            assert(first_index_from(views(seen@), encoded@, 0) matches Some(k) ==> k < seen.len());
        }
        if let Some(index) = position(seen, &encoded) {
            if index < 10 {
                let mut r = String::new();
                push_char(&mut r, (48u8 + index as u8) as char);
                assert(r@ =~= seq![digit_char(index as int)]);
                return Some(r);
            }
        }
    }
    let ghost before = seen@;
    seen.push(encoded.clone());
    assert(views(seen@) =~= views(before).push(encoded@));
    Some(encoded)
}

/// A return type, or `None` where it has no encoding (enums have none here).
pub fn encode_return_type(current_class: &str, ty: &str) -> (r: Option<String>)
    ensures
        opt_string_view(r) == spec_encode_return_type(current_class@, ty@),
{
    encode_value_type(current_class, ty, false)
}

// ---------------------------------------------------------------------------
// Whole symbols.
// ---------------------------------------------------------------------------

/// The access letter of a member function.
pub fn access_token(proto: &MemberFunctionProto) -> (r: char)
    ensures
        r == spec_access_token(proto.is_virtual, proto.access),
{
    if proto.is_virtual {
        match proto.access {
            AccessModifier::Private => 'E',
            AccessModifier::Protected => 'M',
            AccessModifier::Public => 'U',
        }
    } else {
        match proto.access {
            AccessModifier::Private => 'A',
            AccessModifier::Protected => 'I',
            AccessModifier::Public => 'Q',
        }
    }
}

/// The start of the decorated name.
fn symbol_head(class_name: &str, decl: &MemberFunctionProto) -> (r: String)
    ensures
        r@ == spec_symbol_head(class_name@, *decl),
{
    let access = access_token(decl);
    let class = mangle_ident(class_name);
    match decl.fn_type {
        FunctionType::Constructor => {
            let mut r = "??0".to_owned();
            r.append(class.as_str());
            push_char(&mut r, '@');
            push_char(&mut r, access);
            r.append("EAA");
            assert(r@ =~= "??0"@ + class@ + seq!['@', access] + "EAA"@);
            r
        },
        FunctionType::Destructor => {
            let mut r = "??1".to_owned();
            r.append(class.as_str());
            push_char(&mut r, '@');
            push_char(&mut r, access);
            r.append("EAA");
            assert(r@ =~= "??1"@ + class@ + seq!['@', access] + "EAA"@);
            r
        },
        FunctionType::Normal => {
            let mut r = "?".to_owned();
            r.append(decl.name.as_str());
            push_char(&mut r, '@');
            r.append(class.as_str());
            if decl.is_static {
                r.append("@SA");
                assert(r@ =~= "?"@ + decl.name@ + seq!['@'] + class@ + "@SA"@);
            } else {
                let constness = if decl.is_const {
                    'B'
                } else {
                    'A'
                };
                push_char(&mut r, '@');
                push_char(&mut r, access);
                push_char(&mut r, 'E');
                push_char(&mut r, constness);
                push_char(&mut r, 'A');
                assert(r@ =~= "?"@ + decl.name@ + seq!['@'] + class@ + seq![
                    '@',
                    access,
                    'E',
                    constness,
                    'A',
                ]);
            }
            r
        },
    }
}

/// The decorated (mangled) name that the Microsoft x64 ABI gives member
/// function `func` of class `class_name`, or `None` where its return type or a
/// parameter type has no encoding.
#[verifier::loop_isolation(false)]
pub fn generate_windows_symbol(class_name: &str, func: &FunctionBindField) -> (r: Option<String>)
    ensures
        opt_string_view(r) == spec_generate_windows_symbol(class_name@, func.prototype),
{
    let decl = &func.prototype;
    let mut symbol = symbol_head(class_name, decl);

    if decl.fn_type == FunctionType::Normal {
        match encode_return_type(class_name, decl.ret.name.as_str()) {
            Some(ret) => symbol.append(ret.as_str()),
            None => return None,
        }
    }
    if decl.args.len() == 0 {
        symbol.append("XZ");
        return Some(symbol);
    }
    let ghost tys = arg_types(decl.args@);
    let ghost head = symbol@;
    let mut seen: Vec<String> = Vec::new();
    let mut i: usize = 0;
    assert(tys.skip(0) =~= tys);
    assert(views(seen@) =~= Seq::<Seq<char>>::empty());
    while i < decl.args.len()
        invariant
            tys == arg_types(decl.args@),
            i <= decl.args@.len(),
            symbol@.len() >= head.len(),
            symbol@.take(head.len() as int) == head,
            spec_encode_args(class_name@, tys, Seq::empty()) == match spec_encode_args(
                class_name@,
                tys.skip(i as int),
                views(seen@),
            ) {
                Some(rest) => Some(symbol@.skip(head.len() as int) + rest),
                None => None,
            },
        decreases decl.args@.len() - i,
    {
        assert(tys.skip(i as int).drop_first() =~= tys.skip(i + 1));
        assert(tys.skip(i as int)[0] == decl.args@[i as int].ty.name@);
        let ghost before = symbol@;
        match encode_arg_type(class_name, decl.args[i].ty.name.as_str(), &mut seen) {
            Some(e) => {
                symbol.append(e.as_str());
                assert(symbol@.take(head.len() as int) =~= head);
                assert(symbol@.skip(head.len() as int) =~= before.skip(head.len() as int) + e@);
            },
            None => return None,
        }
        i = i + 1;
    }
    assert(tys.skip(i as int).len() == 0);
    assert(symbol@ =~= head + symbol@.skip(head.len() as int));
    symbol.append("@Z");
    Some(symbol)
}

} // verus!
