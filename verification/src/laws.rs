//! Properties of the decoration that hold for every input.

use vstd::prelude::*;
use crate::text::{
    is_unicode_whitespace, lemma_trim_bare, lemma_trim_fixed_ends, lemma_trim_push_whitespace,
    first_sep_from, has_prefix, has_sep, has_suffix, lemma_first_sep_from, lemma_last_sep_before,
    lemma_trim_len, sep_at, spec_split_sep, spec_trim,
};
use crate::windows_symbol::{
    const_prefix, const_suffix, mangled_parts, spec_encode_class_path, spec_encode_value_type,
    spec_generate_windows_symbol, spec_mangle_ident, spec_split_qualified, spec_strip_const,
    spec_symbol_head, AccessModifier, FunctionType, MemberFunctionProto, arg_types, spec_encode_arg_type,
    spec_encode_args, spec_encode_return_type, spec_encode_enum_type, spec_encode_pointer_type,
    spec_primitive_code, digit_char,
};

verus! {

/// Splitting a qualified name loses nothing: the namespace, `::` and the short
/// name spell the name again, and the short name holds no `::`; a name without
/// a namespace holds no `::` at all.
pub proof fn split_qualified_reassembles(name: Seq<char>)
    ensures
        match spec_split_qualified(name) {
            (short, Some(namespace)) => namespace + seq![':', ':'] + short == name && !has_sep(
                short,
            ),
            (short, None) => short == name && !has_sep(name),
        },
{
    lemma_last_sep_before(name, name.len());
    match spec_split_qualified(name) {
        (short, Some(namespace)) => {
            let i = namespace.len() as int;
            assert(namespace + seq![':', ':'] + short =~= name);
            assert forall|k: int| !sep_at(short, k) by {
                if sep_at(short, k) {
                    assert(sep_at(name, i + 2 + k));
                }
            }
        },
        (short, None) => {},
    }
}

/// Stripping qualifiers twice strips nothing more: what is left has neither a
/// `const ` prefix nor a ` const` suffix.
pub proof fn strip_const_idempotent(t: Seq<char>)
    ensures
        spec_strip_const(spec_strip_const(t).0) == (spec_strip_const(t).0, false),
        !has_prefix(spec_strip_const(t).0, const_prefix()),
        !has_suffix(spec_strip_const(t).0, const_suffix()),
    decreases t.len(),
{
    if has_prefix(t, const_prefix()) {
        lemma_trim_len(t.skip(6));
        strip_const_idempotent(spec_trim(t.skip(6)));
    } else if has_suffix(t, const_suffix()) {
        lemma_trim_len(t.take(t.len() - 6));
        strip_const_idempotent(spec_trim(t.take(t.len() - 6)));
    }
}

/// A name without a namespace is decorated as itself followed by `@`.
pub proof fn mangle_unqualified(s: Seq<char>)
    requires
        !has_sep(s),
    ensures
        spec_mangle_ident(s) == s.push('@'),
{
    lemma_first_sep_from(s, 0);
    assert(first_sep_from(s, 0) is None);
    assert(spec_split_sep(s) == seq![s]);
    assert(seq![s].drop_first() =~= Seq::<Seq<char>>::empty());
    assert(mangled_parts(seq![s]) == mangled_parts(Seq::empty()) + s.push('@'));
    assert(Seq::<char>::empty() + s.push('@') =~= s.push('@'));
}

/// Qualifying a name by an outer namespace appends that namespace and `@`:
/// `outer::rest` is decorated as `rest` decorated, then `outer@`.
pub proof fn mangle_qualified(outer: Seq<char>, rest: Seq<char>)
    requires
        !has_sep(outer),
        outer.len() == 0 || outer.last() != ':',
    ensures
        spec_mangle_ident(outer + seq![':', ':'] + rest) == spec_mangle_ident(rest) + outer.push(
            '@',
        ),
{
    let s = outer + seq![':', ':'] + rest;
    let n = outer.len() as int;
    lemma_first_sep_from(s, 0);
    assert(sep_at(s, n));
    assert forall|j: int| 0 <= j < n implies !#[trigger] sep_at(s, j) by {
        if j + 1 < n {
            if sep_at(s, j) {
                assert(sep_at(outer, j));
            }
        }
    }
    assert(first_sep_from(s, 0) == Some(n));
    assert(s.take(n) =~= outer);
    assert(s.skip(n + 2) =~= rest);
    let parts = spec_split_sep(rest);
    assert(spec_split_sep(s) == seq![outer] + parts);
    assert((seq![outer] + parts).drop_first() =~= parts);
}

/// A class named from inside itself is `12@`.
pub proof fn class_path_of_itself(class: Seq<char>)
    ensures
        spec_encode_class_path(class, class) == "12@"@,
{
}

/// A parameter type has an encoding exactly when it is not const-qualified.
pub proof fn arg_encoding_exists(class: Seq<char>, ty: Seq<char>)
    ensures
        spec_encode_value_type(class, ty, true) is Some <==> !spec_strip_const(ty).1,
{
}

/// Every decorated name starts with `?`, and ends with `XZ` when the function
/// takes no parameters and with `@Z` when it takes some.
pub proof fn symbol_shape(class: Seq<char>, p: MemberFunctionProto)
    ensures
        spec_generate_windows_symbol(class, p) matches Some(sym) ==> {
            &&& sym.len() >= 2
            &&& sym[0] == '?'
            &&& p.args.len() == 0 ==> sym.skip(sym.len() - 2) == seq!['X', 'Z']
            &&& p.args.len() != 0 ==> sym.skip(sym.len() - 2) == seq!['@', 'Z']
        },
{
    reveal_strlit("?");
    reveal_strlit("??0");
    reveal_strlit("??1");
    reveal_strlit("XZ");
    reveal_strlit("@Z");
    let head = spec_symbol_head(class, p);
    assert(head.len() >= 1 && head[0] == '?');
    if let Some(sym) = spec_generate_windows_symbol(class, p) {
        assert(sym.len() >= 2);
        assert(sym[0] == '?');
        if p.args.len() == 0 {
            assert(sym.skip(sym.len() - 2) =~= seq!['X', 'Z']);
        } else {
            assert(sym.skip(sym.len() - 2) =~= seq!['@', 'Z']);
        }
    }
}

/// A list of parameter types has an encoding exactly when none of them is
/// const-qualified, whatever encodings came before it.
pub proof fn args_encoding_exists(class: Seq<char>, tys: Seq<Seq<char>>, seen: Seq<Seq<char>>)
    ensures
        spec_encode_args(class, tys, seen) is Some <==> forall|i: int|
            0 <= i < tys.len() ==> !#[trigger] spec_strip_const(tys[i]).1,
    decreases tys.len(),
{
    if tys.len() > 0 {
        match spec_encode_arg_type(class, tys[0], seen) {
            Some((e, seen2)) => {
                args_encoding_exists(class, tys.drop_first(), seen2);
                assert forall|i: int| 1 <= i < tys.len() implies #[trigger] spec_strip_const(
                    tys[i],
                ).1 == spec_strip_const(tys.drop_first()[i - 1]).1 by {}
                if forall|i: int| 0 <= i < tys.len() ==> !#[trigger] spec_strip_const(tys[i]).1 {
                    assert forall|i: int|
                        0 <= i < tys.drop_first().len() implies !#[trigger] spec_strip_const(
                        tys.drop_first()[i],
                    ).1 by {
                        assert(tys.drop_first()[i] == tys[i + 1]);
                    }
                }
            },
            None => {
                assert(spec_strip_const(tys[0]).1);
            },
        }
    }
}

/// A member function has a decorated name exactly when its return type has an
/// encoding (for functions other than constructors and destructors) and none of
/// its parameter types is const-qualified.
pub proof fn symbol_exists(class: Seq<char>, p: MemberFunctionProto)
    ensures
        spec_generate_windows_symbol(class, p) is Some <==> {
            &&& p.fn_type == FunctionType::Normal ==> spec_encode_return_type(
                class,
                p.ret.name@,
            ) is Some
            &&& forall|i: int|
                0 <= i < p.args.len() ==> !#[trigger] spec_strip_const(p.args@[i].ty.name@).1
        },
{
    let tys = arg_types(p.args@);
    args_encoding_exists(class, tys, Seq::empty());
    assert forall|i: int| 0 <= i < p.args.len() implies #[trigger] spec_strip_const(
        p.args@[i].ty.name@,
    ).1 == spec_strip_const(tys[i]).1 by {}
}

/// Where the access letter stands in a symbol: after `?name@` and the class
/// for ordinary functions, after `??0`/`??1` and the class for constructors and
/// destructors.
pub open spec fn access_index(class: Seq<char>, p: MemberFunctionProto) -> int {
    if p.fn_type == FunctionType::Normal {
        (p.name@.len() + spec_mangle_ident(class).len() + 3) as int
    } else {
        (spec_mangle_ident(class).len() + 4) as int
    }
}

/// In the symbol of a non-static member function, the access letter is
/// followed by `E`, then by `B` exactly when the function is `const` (`A`
/// otherwise), then by `A`: whether it is virtual plays no part.
pub proof fn const_qualifier_letter(class: Seq<char>, p: MemberFunctionProto)
    requires
        p.fn_type == FunctionType::Normal,
        !p.is_static,
    ensures
        spec_generate_windows_symbol(class, p) matches Some(sym) ==> {
            let k = access_index(class, p);
            &&& k + 3 < sym.len()
            &&& sym[k + 1] == 'E'
            &&& sym[k + 2] == (if p.is_const {
                'B'
            } else {
                'A'
            })
            &&& sym[k + 3] == 'A'
        },
{
    reveal_strlit("?");
    let head = spec_symbol_head(class, p);
    let k = access_index(class, p);
    assert(head.len() == k + 4);
    assert(head[k + 1] == 'E');
    assert(head[k + 3] == 'A');
    if let Some(sym) = spec_generate_windows_symbol(class, p) {
        assert(sym.take(head.len() as int) =~= head);
        assert(sym[k + 1] == head[k + 1]);
        assert(sym[k + 2] == head[k + 2]);
        assert(sym[k + 3] == head[k + 3]);
    }
}

/// The access letter of a symbol (absent for static functions) follows the
/// Microsoft table: `A`/`I`/`Q` for private/protected/public functions, and
/// `E`/`M`/`U` for virtual ones.
pub proof fn access_letter(class: Seq<char>, p: MemberFunctionProto)
    requires
        !(p.fn_type == FunctionType::Normal && p.is_static),
    ensures
        spec_generate_windows_symbol(class, p) matches Some(sym) ==> {
            let k = access_index(class, p);
            &&& k < sym.len()
            &&& sym[k] == match (p.is_virtual, p.access) {
                (false, AccessModifier::Private) => 'A',
                (false, AccessModifier::Protected) => 'I',
                (false, AccessModifier::Public) => 'Q',
                (true, AccessModifier::Private) => 'E',
                (true, AccessModifier::Protected) => 'M',
                (true, AccessModifier::Public) => 'U',
            }
        },
{
    reveal_strlit("?");
    reveal_strlit("??0");
    reveal_strlit("??1");
    let head = spec_symbol_head(class, p);
    let k = access_index(class, p);
    assert(k < head.len());
    if let Some(sym) = spec_generate_windows_symbol(class, p) {
        assert(sym.take(head.len() as int) =~= head);
        assert(sym[k] == head[k]);
    }
}

/// Making a member function virtual, or not, changes its symbol only in the
/// access letter (and not at all for a static function): the symbol exists for
/// both or for neither, with the same length and every other character equal.
#[verifier::rlimit(60)]
#[verifier::spinoff_prover]
pub proof fn virtual_changes_only_access_letter(class: Seq<char>, p: MemberFunctionProto)
    ensures
        ({
            let q = (MemberFunctionProto { is_virtual: !p.is_virtual, ..p });
            &&& (spec_generate_windows_symbol(class, p) is Some <==> spec_generate_windows_symbol(
                class,
                q,
            ) is Some)
            &&& spec_generate_windows_symbol(class, p) matches Some(sp)
                ==> spec_generate_windows_symbol(class, q) matches Some(sq) ==> {
                &&& sp.len() == sq.len()
                &&& forall|i: int|
                    0 <= i < sp.len() && ((p.fn_type == FunctionType::Normal && p.is_static) || i
                        != access_index(class, p)) ==> sp[i] == sq[i]
            }
        }),
{
    reveal_strlit("?");
    reveal_strlit("??0");
    reveal_strlit("??1");
    let q = (MemberFunctionProto { is_virtual: !p.is_virtual, ..p });
    let hp = spec_symbol_head(class, p);
    let hq = spec_symbol_head(class, q);
    let k = access_index(class, p);
    assert(hp.len() == hq.len());
    assert forall|i: int|
        0 <= i < hp.len() && ((p.fn_type == FunctionType::Normal && p.is_static) || i != k)
        implies hp[i] == hq[i] by {}
    if let Some(sp) = spec_generate_windows_symbol(class, p) {
        let sq = spec_generate_windows_symbol(class, q)->0;
        let tail = sp.skip(hp.len() as int);
        assert(sp =~= hp + tail);
        assert(sq =~= hq + tail);
    }
}

/// The class-path encoding is decided by the namespaces: a class of another
/// namespace (also when exactly one of the two has none) is spelled out in full
/// and followed by `@`; in the same namespace the class itself is `12@` and any
/// other class its short name followed by `@2@`.
pub proof fn class_path_by_namespace(current_class: Seq<char>, ty: Seq<char>)
    ensures
        spec_split_qualified(ty).1 != spec_split_qualified(current_class).1
            ==> spec_encode_class_path(current_class, ty) == spec_mangle_ident(ty) + "@"@,
        spec_split_qualified(ty) == spec_split_qualified(current_class)
            ==> spec_encode_class_path(current_class, ty) == "12@"@,
        spec_split_qualified(ty).1 == spec_split_qualified(current_class).1
            && spec_split_qualified(ty).0 != spec_split_qualified(current_class).0
            ==> spec_encode_class_path(current_class, ty) == spec_split_qualified(ty).0 + "@2@"@,
        has_sep(current_class) != has_sep(ty) ==> spec_encode_class_path(current_class, ty)
            == spec_mangle_ident(ty) + "@"@,
{
    namespace_iff_separator(current_class);
    namespace_iff_separator(ty);
}

/// A name has a namespace exactly when it holds `::`.
pub proof fn namespace_iff_separator(name: Seq<char>)
    ensures
        spec_split_qualified(name).1 is Some <==> has_sep(name),
{
    split_qualified_reassembles(name);
    if let Some(ns) = spec_split_qualified(name).1 {
        let short = spec_split_qualified(name).0;
        assert(sep_at(ns + seq![':', ':'] + short, ns.len() as int));
    }
}

/// An enum of another namespace than the current class (also when exactly one
/// of the two has none) is `W4`, its full decorated name and `@`; an enum of
/// the same namespace is `W4`, its short name and `@2@`.
pub proof fn enum_type_by_namespace(current_class: Seq<char>, ty: Seq<char>)
    ensures
        spec_split_qualified(ty).1 != spec_split_qualified(current_class).1
            ==> spec_encode_enum_type(current_class, ty) == "W4"@ + spec_mangle_ident(ty) + "@"@,
        spec_split_qualified(ty).1 == spec_split_qualified(current_class).1
            ==> spec_encode_enum_type(current_class, ty) == "W4"@ + spec_split_qualified(ty).0
            + "@2@"@,
        has_sep(current_class) != has_sep(ty) ==> spec_encode_enum_type(current_class, ty)
            == "W4"@ + spec_mangle_ident(ty) + "@"@,
{
    namespace_iff_separator(current_class);
    namespace_iff_separator(ty);
}

/// Whitespace between a pointee and `*` does not change a pointer's encoding.
pub proof fn pointer_ignores_space_before_star(current_class: Seq<char>, t: Seq<char>, c: char)
    requires
        is_unicode_whitespace(c),
    ensures
        spec_encode_pointer_type(current_class, t.push(c).push('*')) == spec_encode_pointer_type(
            current_class,
            t.push('*'),
        ),
{
    assert(t.push(c).push('*').drop_last() =~= t.push(c));
    assert(t.push('*').drop_last() =~= t);
    lemma_trim_push_whitespace(t, c);
}

/// A pointee `X` spelled without surrounding whitespace or qualifiers: `X*`
/// has a pointer encoding whose third letter is `A`, and both `const X*` and
/// `X const*` are encoded the same with that letter `B`; for a builtin `X`
/// the encoding of `X*` is `PEA` and the builtin's code.
#[verifier::rlimit(40)]
#[verifier::spinoff_prover]
pub proof fn pointer_to_const(current_class: Seq<char>, x: Seq<char>)
    requires
        x.len() > 0,
        spec_trim(x) == x,
        spec_strip_const(x) == (x, false),
        x != seq!['c', 'o', 'n', 's', 't'],
    ensures
        spec_encode_pointer_type(current_class, x.push('*')) matches Some(plain) && {
            &&& plain.len() >= 3
            &&& plain[2] == 'A'
            &&& spec_encode_pointer_type(current_class, const_prefix() + x.push('*')) == Some(
                plain.update(2, 'B'),
            )
            &&& spec_encode_pointer_type(current_class, (x + const_suffix()).push('*')) == Some(
                plain.update(2, 'B'),
            )
            &&& spec_primitive_code(x) matches Some(code) ==> plain == seq!['P', 'E', 'A'] + code
        },
{
    reveal_strlit("PE");
    lemma_trim_fixed_ends(x);
    assert(x.push('*').drop_last() =~= x);
    let plain = spec_encode_pointer_type(current_class, x.push('*'))->0;
    let with_b = |c: char| if spec_primitive_code(x) is Some {
        "PE"@ + seq![c] + spec_primitive_code(x)->0
    } else {
        "PE"@ + seq![c, 'V'] + spec_encode_class_path(current_class, x)
    };
    assert(plain =~= with_b('A'));
    assert(plain.update(2, 'B') =~= with_b('B'));

    // `const X*`
    let b1 = const_prefix() + x;
    assert((const_prefix() + x.push('*')).drop_last() =~= b1);
    assert(b1.last() == x.last());
    lemma_trim_bare(b1);
    assert(b1.take(6) =~= const_prefix());
    assert(has_prefix(b1, const_prefix()));
    assert(b1.skip(6) =~= x);
    assert(spec_strip_const(b1) == (x, true));

    // `X const*`
    let b2 = x + const_suffix();
    assert((x + const_suffix()).push('*').drop_last() =~= b2);
    assert(b2[0] == x[0]);
    lemma_trim_bare(b2);
    if has_prefix(b2, const_prefix()) {
        if x.len() >= 6 {
            assert(x.take(6) =~= b2.take(6));
            assert(has_prefix(x, const_prefix()));
        } else if x.len() == 5 {
            assert(x =~= seq!['c', 'o', 'n', 's', 't']) by {
                assert forall|i: int| 0 <= i < 5 implies x[i] == const_prefix()[i] by {
                    assert(b2.take(6)[i] == b2[i]);
                }
            }
        } else {
            assert(b2.take(6)[5] == b2[5]);
            assert(b2[5] == const_suffix()[5 - x.len()]);
        }
    }
    assert(b2.skip(b2.len() - 6) =~= const_suffix());
    assert(has_suffix(b2, const_suffix()));
    assert(b2.take(b2.len() - 6) =~= x);
    assert(spec_strip_const(b2) == (x, true));
}

/// Each parameter written out is remembered: encoding a parameter either
/// writes out its encoding and appends exactly that to the list of encodings
/// seen, whatever kind of type it is, or, for a `bool` whose encoding `_N` is
/// among the first ten seen, writes the digit of the first such index and
/// leaves the list as it was.
pub proof fn written_encodings_are_remembered(
    current_class: Seq<char>,
    ty: Seq<char>,
    seen: Seq<Seq<char>>,
)
    ensures
        spec_encode_arg_type(current_class, ty, seen) matches Some((e, seen2)) ==> {
            ||| e == spec_encode_value_type(current_class, ty, true)->0 && seen2 == seen.push(e)
            ||| {
                &&& seen2 == seen
                &&& spec_encode_value_type(current_class, ty, true) == Some("_N"@)
                &&& exists|k: int|
                    #![trigger seen[k]]
                    0 <= k < 10 && k < seen.len() && seen[k] == "_N"@ && e == seq![digit_char(k)]
                        && forall|j: int| 0 <= j < k ==> seen[j] != "_N"@
            }
        },
{
    if let Some(e0) = spec_encode_value_type(current_class, ty, true) {
        lemma_first_index_props(seen, e0, 0);
    }
}

proof fn lemma_first_index_props(ss: Seq<Seq<char>>, x: Seq<char>, k: nat)
    ensures
        crate::windows_symbol::first_index_from(ss, x, k) matches Some(i) ==> {
            &&& k <= i < ss.len()
            &&& ss[i] == x
            &&& forall|j: int| k <= j < i ==> ss[j] != x
        },
    decreases ss.len() - k,
{
    if k < ss.len() && ss[k as int] != x {
        lemma_first_index_props(ss, x, k + 1);
    }
}

} // verus!
