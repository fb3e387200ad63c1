use vstd::prelude::*;

use crate::environment::Runtime;
use crate::lexer::{byte_len, char_width};
use crate::object::{
    inspect, lemma_objs_v, obj_type, obj_v, objs_v, type_text, Builtin, Object, ObjectType, SObject,
};
use crate::text::{nat_text, owned, push_str, same_text, usize_text};

verus! {

// ---------------------------------------------------------------------------
// The functions the language provides
// ---------------------------------------------------------------------------

/// The function provided under `name`, if any.
pub open spec fn builtin_named(name: Seq<char>) -> Option<Builtin> {
    if name == "len"@ {
        Some(Builtin::Len)
    } else if name == "first"@ {
        Some(Builtin::First)
    } else if name == "last"@ {
        Some(Builtin::Last)
    } else if name == "rest"@ {
        Some(Builtin::Rest)
    } else if name == "push"@ {
        Some(Builtin::Push)
    } else if name == "puts"@ {
        Some(Builtin::Puts)
    } else {
        None
    }
}

/// The message for a call with `got` arguments where `want` were expected.
pub open spec fn arity_msg(got: nat, want: nat) -> Seq<char> {
    "wrong number of arguments. got="@ + nat_text(got) + ", want="@ + nat_text(want)
}

/// The message for a function that takes an array and was given a value of type `t`.
pub open spec fn not_array_msg(name: Seq<char>, t: ObjectType) -> Seq<char> {
    "argument to `"@ + name + "` must be ARRAY, got "@ + type_text(t)
}

/// What a provided function returns for the given arguments.
pub open spec fn builtin_result(b: Builtin, args: Seq<SObject>) -> SObject {
    match b {
        Builtin::Len => if args.len() != 1 {
            SObject::Error(arity_msg(args.len(), 1))
        } else {
            match args[0] {
                SObject::String(s) => SObject::Integer((byte_len(s) as usize) as i64),
                SObject::Array(v) => SObject::Integer(v.len() as i64),
                _ => SObject::Error(
                    "argument to `len` not supported, got "@ + type_text(obj_type(args[0])),
                ),
            }
        },
        Builtin::First => if args.len() != 1 {
            SObject::Error(arity_msg(args.len(), 1))
        } else {
            match args[0] {
                SObject::Array(v) => if v.len() == 0 {
                    SObject::Null
                } else {
                    v[0]
                },
                _ => SObject::Error(not_array_msg("first"@, obj_type(args[0]))),
            }
        },
        Builtin::Last => if args.len() != 1 {
            SObject::Error(arity_msg(args.len(), 1))
        } else {
            match args[0] {
                SObject::Array(v) => if v.len() == 0 {
                    SObject::Null
                } else {
                    v.last()
                },
                _ => SObject::Error(not_array_msg("last"@, obj_type(args[0]))),
            }
        },
        Builtin::Rest => if args.len() != 1 {
            SObject::Error(arity_msg(args.len(), 1))
        } else {
            match args[0] {
                SObject::Array(v) => if v.len() == 0 {
                    SObject::Null
                } else {
                    SObject::Array(v.drop_first())
                },
                _ => SObject::Error(not_array_msg("rest"@, obj_type(args[0]))),
            }
        },
        Builtin::Push => if args.len() != 2 {
            SObject::Error(arity_msg(args.len(), 2))
        } else {
            match args[0] {
                SObject::Array(v) => SObject::Array(v.push(args[1])),
                _ => SObject::Error(not_array_msg("push"@, obj_type(args[0]))),
            }
        },
        Builtin::Puts => SObject::Null,
    }
}

/// The lines a provided function prints: `puts` prints each argument on a line of its own.
pub open spec fn builtin_printed(b: Builtin, args: Seq<SObject>) -> Seq<Seq<char>> {
    match b {
        Builtin::Puts => args.map_values(|a: SObject| inspect(a)),
        _ => Seq::empty(),
    }
}

/// `first` and `rest` take an array apart: for a non-empty array, `rest` gives an array, and
/// the first element followed by it is the whole array again (so `rest` of a one-element
/// array is the empty array, one element shorter); only the empty array gives `null` for both.
pub proof fn law_first_and_rest(v: Seq<SObject>)
    ensures
        v.len() > 0 ==> (builtin_result(Builtin::Rest, seq![SObject::Array(v)]) matches SObject::Array(w)
            && seq![builtin_result(Builtin::First, seq![SObject::Array(v)])] + w == v && w.len() + 1 == v.len()),
        v.len() == 0 ==> builtin_result(Builtin::Rest, seq![SObject::Array(v)]) == SObject::Null
            && builtin_result(Builtin::First, seq![SObject::Array(v)]) == SObject::Null,
{
    if v.len() > 0 {
        assert(seq![v[0]] + v.drop_first() =~= v);
    }
}

/// `push` adds one element at the end and keeps the others: `last` of the result is the
/// element pushed, `first` of a non-empty array stays the same, `rest` and `push` commute on
/// a non-empty array, and `len` grows by one.
pub proof fn law_push_adds_at_the_end(v: Seq<SObject>, x: SObject)
    ensures
        builtin_result(Builtin::Push, seq![SObject::Array(v), x]) matches SObject::Array(w) && ({
            &&& builtin_result(Builtin::Last, seq![SObject::Array(w)]) == x
            &&& w.len() == v.len() + 1
            &&& w.subrange(0, v.len() as int) == v
            &&& (v.len() > 0 ==> builtin_result(Builtin::First, seq![SObject::Array(w)])
                == builtin_result(Builtin::First, seq![SObject::Array(v)]))
            &&& (v.len() > 0 ==> builtin_result(Builtin::Rest, seq![SObject::Array(w)])
                == builtin_result(Builtin::Push, seq![builtin_result(Builtin::Rest, seq![SObject::Array(v)]), x]))
            &&& (v.len() < i64::MAX ==> builtin_result(Builtin::Len, seq![SObject::Array(w)])
                == SObject::Integer((v.len() + 1) as i64)
                && builtin_result(Builtin::Len, seq![SObject::Array(v)]) == SObject::Integer(v.len() as i64))
        }),
{
    let w = v.push(x);
    assert(w.subrange(0, v.len() as int) =~= v);
    if v.len() > 0 {
        assert(w.drop_first() =~= v.drop_first().push(x));
        assert(w[0] == v[0]);
    }
}

/// A character takes as many bytes in UTF-8 as its width says.
proof fn lemma_scalar_width(c: char)
    ensures
        vstd::utf8::encode_scalar(c as u32).len() == char_width(c),
{
}

/// The width of a text is that of its first character and of the rest.
proof fn lemma_byte_len_first(s: Seq<char>)
    requires
        s.len() > 0,
    ensures
        byte_len(s) == char_width(s[0]) + byte_len(s.drop_first()),
    decreases s.len(),
{
    if s.len() == 1 {
        assert(s.drop_last() =~= Seq::<char>::empty());
        assert(s.drop_first() =~= Seq::<char>::empty());
    } else {
        lemma_byte_len_first(s.drop_last());
        assert(s.drop_last().drop_first() =~= s.drop_first().drop_last());
        assert(s.drop_last()[0] == s[0]);
        assert(s.drop_first().last() == s.last());
    }
}

/// The UTF-8 encoding of a text has as many bytes as its width.
proof fn lemma_encode_len(s: Seq<char>)
    ensures
        vstd::utf8::encode_utf8(s).len() == byte_len(s),
    decreases s.len(),
{
    if s.len() > 0 {
        lemma_encode_len(s.drop_first());
        lemma_scalar_width(s[0]);
        lemma_byte_len_first(s);
    }
}

/// The number of bytes of the UTF-8 encoding of `s`.
pub(crate) fn utf8_len(s: &str) -> (n: usize)
    ensures
        n == byte_len(s@) as usize,
{
    proof {
        lemma_encode_len(s@);
    }
    s.len()
}

/// The function provided under `name`, if any.
pub fn lookup_builtin(name: &str) -> (r: Option<Builtin>)
    ensures
        r == builtin_named(name@),
{
    let n = owned(name);
    if same_text(&n, "len") {
        Some(Builtin::Len)
    } else if same_text(&n, "first") {
        Some(Builtin::First)
    } else if same_text(&n, "last") {
        Some(Builtin::Last)
    } else if same_text(&n, "rest") {
        Some(Builtin::Rest)
    } else if same_text(&n, "push") {
        Some(Builtin::Push)
    } else if same_text(&n, "puts") {
        Some(Builtin::Puts)
    } else {
        None
    }
}

pub(crate) fn arity_text(got: usize, want: usize) -> (m: String)
    ensures
        m@ == arity_msg(got as nat, want as nat),
{
    let mut m = owned("wrong number of arguments. got=");
    let g = usize_text(got);
    push_str(&mut m, g.as_str());
    push_str(&mut m, ", want=");
    let w = usize_text(want);
    push_str(&mut m, w.as_str());
    m
}

pub(crate) fn arity_error(got: usize, want: usize) -> (o: Object)
    ensures
        o@ == SObject::Error(arity_msg(got as nat, want as nat)),
{
    Object::Error(arity_text(got, want))
}

fn not_array_error(name: &str, arg: &Object) -> (o: Object)
    ensures
        o@ == SObject::Error(not_array_msg(name@, obj_type(arg@))),
{
    let mut m = owned("argument to `");
    push_str(&mut m, name);
    push_str(&mut m, "` must be ARRAY, got ");
    let t = arg.object_type().name();
    push_str(&mut m, t.as_str());
    Object::Error(m)
}

#[verifier::spinoff_prover]
fn builtin_len(args: &Vec<Object>) -> (r: Object)
    ensures
        r@ == builtin_result(Builtin::Len, objs_v(args@)),
{
    proof {
        lemma_objs_v(args@);
    }
    if args.len() != 1 {
        return arity_error(args.len(), 1);
    }
    match &args[0] {
        Object::String(s) => {
            let n = utf8_len(s.as_str());
            Object::Integer(n as i64)
        },
        Object::Array(v) => {
            proof {
                lemma_objs_v(v@);
            }
            Object::Integer(v.len() as i64)
        },
        _ => {
            let mut m = owned("argument to `len` not supported, got ");
            let t = args[0].object_type().name();
            push_str(&mut m, t.as_str());
            Object::Error(m)
        },
    }
}

#[verifier::spinoff_prover]
fn builtin_first(args: &Vec<Object>) -> (r: Object)
    ensures
        r@ == builtin_result(Builtin::First, objs_v(args@)),
{
    proof {
        lemma_objs_v(args@);
    }
    if args.len() != 1 {
        return arity_error(args.len(), 1);
    }
    match &args[0] {
        Object::Array(v) => {
            proof {
                lemma_objs_v(v@);
            }
            if v.len() == 0 {
                Object::Null
            } else {
                v[0].duplicate()
            }
        },
        _ => not_array_error("first", &args[0]),
    }
}

#[verifier::spinoff_prover]
fn builtin_last(args: &Vec<Object>) -> (r: Object)
    ensures
        r@ == builtin_result(Builtin::Last, objs_v(args@)),
{
    proof {
        lemma_objs_v(args@);
    }
    if args.len() != 1 {
        return arity_error(args.len(), 1);
    }
    match &args[0] {
        Object::Array(v) => {
            proof {
                lemma_objs_v(v@);
            }
            if v.len() == 0 {
                Object::Null
            } else {
                v[v.len() - 1].duplicate()
            }
        },
        _ => not_array_error("last", &args[0]),
    }
}

#[verifier::spinoff_prover]
fn builtin_rest(args: &Vec<Object>) -> (r: Object)
    ensures
        r@ == builtin_result(Builtin::Rest, objs_v(args@)),
{
    proof {
        lemma_objs_v(args@);
    }
    if args.len() != 1 {
        return arity_error(args.len(), 1);
    }
    match &args[0] {
        Object::Array(v) => {
            proof {
                lemma_objs_v(v@);
            }
            if v.len() == 0 {
                Object::Null
            } else {
                let mut rest: Vec<Object> = Vec::new();
                let mut i: usize = 1;
                while i < v.len()
                    invariant
                        1 <= i <= v.len(),
                        rest@.len() == i - 1,
                        forall|j: int| 0 <= j < rest@.len() ==> #[trigger] obj_v(rest@[j]) == obj_v(v@[j + 1]),
                    decreases v.len() - i,
                {
                    rest.push(v[i].duplicate());
                    i = i + 1;
                }
                proof {
                    lemma_objs_v(rest@);
                    lemma_objs_v(v@);
                    assert(objs_v(rest@) =~= objs_v(v@).drop_first());
                }
                Object::Array(rest)
            }
        },
        _ => not_array_error("rest", &args[0]),
    }
}

#[verifier::spinoff_prover]
fn builtin_push(args: &Vec<Object>) -> (r: Object)
    ensures
        r@ == builtin_result(Builtin::Push, objs_v(args@)),
{
    proof {
        lemma_objs_v(args@);
    }
    if args.len() != 2 {
        return arity_error(args.len(), 2);
    }
    match &args[0] {
        Object::Array(v) => {
            proof {
                lemma_objs_v(v@);
            }
            let mut all: Vec<Object> = Vec::new();
            let mut i: usize = 0;
            while i < v.len()
                invariant
                    i <= v.len(),
                    all@.len() == i,
                    forall|j: int| 0 <= j < all@.len() ==> #[trigger] obj_v(all@[j]) == obj_v(v@[j]),
                decreases v.len() - i,
            {
                all.push(v[i].duplicate());
                i = i + 1;
            }
            all.push(args[1].duplicate());
            proof {
                lemma_objs_v(all@);
                lemma_objs_v(v@);
                lemma_objs_v(args@);
                assert(objs_v(all@) =~= objs_v(v@).push(objs_v(args@)[1]));
            }
            Object::Array(all)
        },
        _ => not_array_error("push", &args[0]),
    }
}

#[verifier::spinoff_prover]
fn builtin_puts(args: &Vec<Object>, runtime: &mut Runtime)
    ensures
        final(runtime)@.envs == old(runtime)@.envs,
        final(runtime)@.output == old(runtime)@.output + builtin_printed(Builtin::Puts, objs_v(args@)),
{
    let ghost a = objs_v(args@);
    proof {
        lemma_objs_v(args@);
    }
    let ghost out0 = runtime@.output;
    let mut i: usize = 0;
    while i < args.len()
        invariant
            i <= args@.len(),
            a == objs_v(args@),
            a.len() == args@.len(),
            forall|j: int| 0 <= j < args@.len() ==> #[trigger] a[j] == args@[j]@,
            runtime@.envs == old(runtime)@.envs,
            out0 == old(runtime)@.output,
            runtime@.output == out0 + a.take(i as int).map_values(|o: SObject| inspect(o)),
        decreases args.len() - i,
    {
        let line = args[i].inspect();
        runtime.print(line);
        proof {
            assert(a.take(i + 1).map_values(|o: SObject| inspect(o)) =~= a.take(
                i as int,
            ).map_values(|o: SObject| inspect(o)).push(inspect(a[i as int])));
        }
        i = i + 1;
    }
    proof {
        assert(a.take(args@.len() as int) =~= a);
    }
}

/// Calls a provided function; what `puts` prints is added to the runtime's output.
#[verifier::spinoff_prover]
pub fn apply_builtin(b: Builtin, args: Vec<Object>, runtime: &mut Runtime) -> (r: Object)
    ensures
        r@ == builtin_result(b, objs_v(args@)),
        final(runtime)@.envs == old(runtime)@.envs,
        final(runtime)@.output == old(runtime)@.output + builtin_printed(b, objs_v(args@)),
{
    match b {
        Builtin::Len => builtin_len(&args),
        Builtin::First => builtin_first(&args),
        Builtin::Last => builtin_last(&args),
        Builtin::Rest => builtin_rest(&args),
        Builtin::Push => builtin_push(&args),
        Builtin::Puts => {
            builtin_puts(&args, runtime);
            Object::Null
        },
    }
}

} // verus!
