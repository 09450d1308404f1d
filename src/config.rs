//! A compiled schema at work: the command-line flags it asks for, the values
//! it resolves from the argument matches and the file store, and what it
//! writes back to the file.
use vstd::prelude::*;
use crate::opt::{
    ArgView, FlagSpec, FlagSpecView, Opt, OptView, WriteOp, WriteOpView, arg_of, file_of, flag_of,
    resolved, write_of,
};
use crate::schema::{IdClass, first_clash, ident_of, lemma_no_clash_distinct, opts_view};
use crate::sources::{cli_matches, ini_new, ini_set, ini_values};
use crate::value::{Value, ValueView, has_type, lemma_render_parse, opt_value_view, render_value};

verus! {

/// The flags of the first `n` descriptors, in declaration order.
pub open spec fn flags_of(opts: Seq<OptView>, n: int) -> Seq<FlagSpecView>
    decreases n,
{
    if n <= 0 {
        Seq::empty()
    } else {
        match flag_of(opts[n - 1]) {
            Some(f) => flags_of(opts, n - 1).push(f),
            None => flags_of(opts, n - 1),
        }
    }
}

/// The values of the first `n` fields, or the message of the first parse
/// error among them.
pub open spec fn resolved_prefix(
    opts: Seq<OptView>,
    args: Map<Seq<char>, Option<Seq<char>>>,
    store: Map<(Seq<char>, Seq<char>), Seq<char>>,
    n: int,
) -> Result<Seq<Option<ValueView>>, Seq<char>>
    decreases n,
{
    if n <= 0 {
        Ok(Seq::empty())
    } else {
        match resolved_prefix(opts, args, store, n - 1) {
            Err(m) => Err(m),
            Ok(vs) => match resolved(opts[n - 1], arg_of(opts[n - 1], args), file_of(opts[n - 1], store)) {
                Err(m) => Err(m),
                Ok(v) => Ok(vs.push(v)),
            },
        }
    }
}

/// The write operations of the first `n` fields, in declaration order.
pub open spec fn writes_of(opts: Seq<OptView>, vals: Seq<Option<ValueView>>, n: int) -> Seq<WriteOpView>
    decreases n,
{
    if n <= 0 {
        Seq::empty()
    } else {
        match write_of(opts[n - 1], vals[n - 1]) {
            Some(w) => writes_of(opts, vals, n - 1).push(w),
            None => writes_of(opts, vals, n - 1),
        }
    }
}

/// A file store after the write operations, in order, each replacing the
/// value under its section and key.
pub open spec fn apply_writes(
    ws: Seq<WriteOpView>,
    store: Map<(Seq<char>, Seq<char>), Seq<char>>,
) -> Map<(Seq<char>, Seq<char>), Seq<char>>
    decreases ws.len(),
{
    if ws.len() == 0 {
        store
    } else {
        let w = ws.last();
        apply_writes(ws.drop_last(), store).insert((w.section, w.key), w.text)
    }
}

pub open spec fn empty_store() -> Map<(Seq<char>, Seq<char>), Seq<char>> {
    Map::empty()
}

pub open spec fn values_view(vals: Seq<Option<Value>>) -> Seq<Option<ValueView>> {
    vals.map_values(|v: Option<Value>| opt_value_view(v))
}

/// The command-line flags of a schema: one for each field with an argument
/// projection, in declaration order.
pub fn build_cli_schema(opts: &Vec<Opt>) -> (r: Vec<FlagSpec>)
    ensures
        r@.map_values(|f: FlagSpec| f@) == flags_of(opts_view(opts@), opts@.len() as int),
{
    let ghost v = opts_view(opts@);
    let mut flags: Vec<FlagSpec> = Vec::new();
    let mut i: usize = 0;
    assert(flags@.map_values(|f: FlagSpec| f@) =~= Seq::<FlagSpecView>::empty());
    while i < opts.len()
        invariant
            i <= opts.len(),
            v == opts_view(opts@),
            flags@.map_values(|f: FlagSpec| f@) == flags_of(v, i as int),
        decreases opts.len() - i,
    {
        assert(v[i as int] == opts@[i as int]@);
        match opts[i].into_arg_init() {
            Some(f) => {
                let ghost before = flags@;
                flags.push(f);
                assert(flags@.map_values(|f: FlagSpec| f@) =~= before.map_values(|f: FlagSpec| f@).push(f@));
            },
            None => {},
        }
        i = i + 1;
    }
    flags
}

/// Resolves every field of a schema from the argument matches, the file
/// store and the defaults, in declaration order; the first parse error
/// stops the resolution.
pub fn resolve_all(opts: &Vec<Opt>, args: &clap::ArgMatches, file: &ini::Ini) -> (r: Result<Vec<Option<Value>>, crate::Error>)
    ensures
        match resolved_prefix(opts_view(opts@), cli_matches(*args), ini_values(*file), opts@.len() as int) {
            Ok(vs) => r matches Ok(x) && values_view(x@) == vs,
            Err(m) => r matches Err(e) && (e matches crate::Error::Parse(t) && t@ == m),
        },
{
    let ghost v = opts_view(opts@);
    let ghost m = cli_matches(*args);
    let ghost store = ini_values(*file);
    let mut vals: Vec<Option<Value>> = Vec::new();
    let mut i: usize = 0;
    assert(values_view(vals@) =~= Seq::<Option<ValueView>>::empty());
    while i < opts.len()
        invariant
            i <= opts.len(),
            v == opts_view(opts@),
            m == cli_matches(*args),
            store == ini_values(*file),
            resolved_prefix(v, m, store, i as int) == Ok::<Seq<Option<ValueView>>, Seq<char>>(values_view(vals@)),
        decreases opts.len() - i,
    {
        assert(v[i as int] == opts@[i as int]@);
        match opts[i].into_field_init(args, file) {
            Ok(x) => {
                let ghost before = vals@;
                vals.push(x);
                assert(values_view(vals@) =~= values_view(before).push(opt_value_view(x)));
            },
            Err(e) => {
                proof {
                    lemma_resolved_error_stays(v, m, store, i + 1, opts@.len() as int);
                }
                return Err(e);
            },
        }
        i = i + 1;
    }
    Ok(vals)
}

proof fn lemma_resolved_error_stays(
    opts: Seq<OptView>,
    args: Map<Seq<char>, Option<Seq<char>>>,
    store: Map<(Seq<char>, Seq<char>), Seq<char>>,
    n: int,
    m: int,
)
    requires
        resolved_prefix(opts, args, store, n) is Err,
        n <= m,
    ensures
        resolved_prefix(opts, args, store, m) == resolved_prefix(opts, args, store, n),
    decreases m - n,
{
    if n < m {
        lemma_resolved_error_stays(opts, args, store, n, m - 1);
    }
}

/// What a configuration writes to its file: for each field with a file
/// projection and a value, in declaration order, the value's text under the
/// field's section and key.
pub fn write_ops(opts: &Vec<Opt>, vals: &Vec<Option<Value>>) -> (r: Vec<WriteOp>)
    requires
        vals.len() == opts.len(),
    ensures
        r@.map_values(|w: WriteOp| w@) == writes_of(
            opts_view(opts@),
            values_view(vals@),
            opts@.len() as int,
        ),
{
    let ghost v = opts_view(opts@);
    let ghost vv = values_view(vals@);
    let mut ops: Vec<WriteOp> = Vec::new();
    let mut i: usize = 0;
    assert(ops@.map_values(|w: WriteOp| w@) =~= Seq::<WriteOpView>::empty());
    while i < opts.len()
        invariant
            i <= opts.len(),
            vals.len() == opts.len(),
            v == opts_view(opts@),
            vv == values_view(vals@),
            ops@.map_values(|w: WriteOp| w@) == writes_of(v, vv, i as int),
        decreases opts.len() - i,
    {
        assert(v[i as int] == opts@[i as int]@);
        assert(vv[i as int] == opt_value_view(vals@[i as int]));
        match opts[i].into_to_file(&vals[i]) {
            Some(w) => {
                let ghost before = ops@;
                ops.push(w);
                assert(ops@.map_values(|w: WriteOp| w@) =~= before.map_values(|w: WriteOp| w@).push(w@));
            },
            None => {},
        }
        i = i + 1;
    }
    ops
}

/// A fresh file store holding what the configuration writes.
pub fn write_ini(opts: &Vec<Opt>, vals: &Vec<Option<Value>>) -> (r: ini::Ini)
    requires
        vals.len() == opts.len(),
    ensures
        ini_values(r) == apply_writes(
            writes_of(opts_view(opts@), values_view(vals@), opts@.len() as int),
            empty_store(),
        ),
{
    let ops = write_ops(opts, vals);
    let ghost ws = ops@.map_values(|w: WriteOp| w@);
    let mut conf = ini_new();
    assert(ini_values(conf) =~= empty_store());
    let mut i: usize = 0;
    assert(ws.subrange(0, 0) =~= Seq::<WriteOpView>::empty());
    while i < ops.len()
        invariant
            i <= ops.len(),
            ws == ops@.map_values(|w: WriteOp| w@),
            ini_values(conf) == apply_writes(ws.subrange(0, i as int), empty_store()),
        decreases ops.len() - i,
    {
        let w = &ops[i];
        ini_set(&mut conf, w.section.as_str(), w.key.as_str(), w.text.as_str());
        assert(ws.subrange(0, i + 1).drop_last() =~= ws.subrange(0, i as int));
        i = i + 1;
    }
    assert(ws.subrange(0, ops.len() as int) =~= ws);
    conf
}

/// What a fresh store holds after the writes of the first `n` fields, under
/// the section and key of field `j`, when no other field has that section
/// and key.
proof fn lemma_store_at(opts: Seq<OptView>, vals: Seq<Option<ValueView>>, n: int, j: int)
    requires
        0 <= n <= opts.len(),
        vals.len() == opts.len(),
        0 <= j < opts.len(),
        opts[j].file is Some,
        forall|k: int|
            0 <= k < opts.len() && k != j ==> ident_of(#[trigger] opts[k], IdClass::File) != ident_of(
                opts[j],
                IdClass::File,
            ),
    ensures
        ({
            let key = (opts[j].file->0.section, opts[j].file->0.name);
            let st = apply_writes(writes_of(opts, vals, n), empty_store());
            if j < n && vals[j] is Some {
                st.contains_key(key) && st[key] == render_value(vals[j]->0)
            } else {
                !st.contains_key(key)
            }
        }),
    decreases n,
{
    if n > 0 {
        lemma_store_at(opts, vals, n - 1, j);
        let ws = writes_of(opts, vals, n - 1);
        match write_of(opts[n - 1], vals[n - 1]) {
            Some(w) => {
                assert(ws.push(w).drop_last() =~= ws);
                if n - 1 != j {
                    assert(ident_of(opts[n - 1], IdClass::File) != ident_of(opts[j], IdClass::File));
                }
            },
            None => {},
        }
    }
}

/// Writing a configuration to a fresh store and resolving a field with a
/// file projection back from it, with no argument given, gives the field's
/// value: a value comes back exactly, and an absent optional value comes
/// back absent when the field has no declared default.
pub proof fn lemma_write_then_read(opts: Seq<OptView>, vals: Seq<Option<ValueView>>, j: int)
    requires
        first_clash(opts, opts.len() as int) is None,
        vals.len() == opts.len(),
        0 <= j < opts.len(),
        opts[j].file is Some,
        vals[j] matches Some(v) ==> has_type(v, opts[j].ty),
        vals[j] is None ==> opts[j].default is None,
    ensures
        resolved(
            opts[j],
            ArgView::Absent,
            file_of(opts[j], apply_writes(writes_of(opts, vals, opts.len() as int), empty_store())),
        ) == Ok::<Option<ValueView>, Seq<char>>(vals[j]),
{
    let n = opts.len() as int;
    assert forall|k: int|
        0 <= k < opts.len() && k != j implies ident_of(#[trigger] opts[k], IdClass::File) != ident_of(
        opts[j],
        IdClass::File,
    ) by {
        if k < j {
            lemma_no_clash_distinct(opts, n, k, j, IdClass::File);
        } else if ident_of(opts[k], IdClass::File) is Some {
            lemma_no_clash_distinct(opts, n, j, k, IdClass::File);
        }
    }
    lemma_store_at(opts, vals, n, j);
    if vals[j] is Some {
        lemma_render_parse(vals[j]->0, opts[j].ty);
    }
}

/// Whether a configuration's values fit its descriptors so that writing and
/// reading back gives them again: each value is of its field's type, and a
/// field that writes nothing (no file projection, or an absent optional
/// value) holds its default.
pub open spec fn values_round_trip(opts: Seq<OptView>, vals: Seq<Option<ValueView>>) -> bool {
    &&& vals.len() == opts.len()
    &&& forall|j: int|
        0 <= j < opts.len() ==> (#[trigger] vals[j] matches Some(v) ==> has_type(v, opts[j].ty))
    &&& forall|j: int|
        0 <= j < opts.len() ==> ((opts[j].file is None || #[trigger] vals[j] is None)
            ==> opts[j].default == vals[j])
}

/// Resolving a whole schema from the store that a configuration was written
/// to, with argument matches that give none of its fields, gives the
/// configuration back, field by field.
pub proof fn lemma_schema_round_trip(
    opts: Seq<OptView>,
    vals: Seq<Option<ValueView>>,
    args: Map<Seq<char>, Option<Seq<char>>>,
)
    requires
        first_clash(opts, opts.len() as int) is None,
        values_round_trip(opts, vals),
        forall|j: int| 0 <= j < opts.len() ==> arg_of(#[trigger] opts[j], args) == ArgView::Absent,
    ensures
        resolved_prefix(
            opts,
            args,
            apply_writes(writes_of(opts, vals, opts.len() as int), empty_store()),
            opts.len() as int,
        ) == Ok::<Seq<Option<ValueView>>, Seq<char>>(vals),
{
    let store = apply_writes(writes_of(opts, vals, opts.len() as int), empty_store());
    lemma_round_trip_prefix(opts, vals, args, store, opts.len() as int);
    assert(vals.subrange(0, opts.len() as int) =~= vals);
}

proof fn lemma_round_trip_prefix(
    opts: Seq<OptView>,
    vals: Seq<Option<ValueView>>,
    args: Map<Seq<char>, Option<Seq<char>>>,
    store: Map<(Seq<char>, Seq<char>), Seq<char>>,
    n: int,
)
    requires
        first_clash(opts, opts.len() as int) is None,
        values_round_trip(opts, vals),
        forall|j: int| 0 <= j < opts.len() ==> arg_of(#[trigger] opts[j], args) == ArgView::Absent,
        store == apply_writes(writes_of(opts, vals, opts.len() as int), empty_store()),
        0 <= n <= opts.len(),
    ensures
        resolved_prefix(opts, args, store, n) == Ok::<Seq<Option<ValueView>>, Seq<char>>(
            vals.subrange(0, n),
        ),
    decreases n,
{
    if n > 0 {
        let j = n - 1;
        lemma_round_trip_prefix(opts, vals, args, store, j);
        assert(arg_of(opts[j], args) == ArgView::Absent);
        assert(vals[j] matches Some(v) ==> has_type(v, opts[j].ty));
        assert((opts[j].file is None || vals[j] is None) ==> opts[j].default == vals[j]);
        if opts[j].file is Some {
            lemma_write_then_read(opts, vals, j);
        }
        assert(vals.subrange(0, j).push(vals[j]) =~= vals.subrange(0, n));
    } else {
        assert(vals.subrange(0, 0) =~= Seq::<Option<ValueView>>::empty());
    }
}

proof fn lemma_resolved_prefix_at(
    opts: Seq<OptView>,
    args: Map<Seq<char>, Option<Seq<char>>>,
    store: Map<(Seq<char>, Seq<char>), Seq<char>>,
    n: int,
)
    requires
        0 <= n,
        resolved_prefix(opts, args, store, n) is Ok,
    ensures
        ({
            let vs = resolved_prefix(opts, args, store, n)->Ok_0;
            &&& vs.len() == n
            &&& forall|j: int|
                0 <= j < n ==> resolved(opts[j], arg_of(opts[j], args), file_of(opts[j], store))
                    == Ok::<Option<ValueView>, Seq<char>>(#[trigger] vs[j])
        }),
    decreases n,
{
    if n > 0 {
        lemma_resolved_prefix_at(opts, args, store, n - 1);
    }
}

/// Writing a configuration to a fresh store and resolving the whole schema
/// from it gives back the value of each field with a file projection that
/// the arguments leave unset, whatever the arguments give the other fields:
/// a value exactly, and an absent optional value absent when the field has
/// no declared default.
pub proof fn lemma_field_round_trip_in_schema(
    opts: Seq<OptView>,
    vals: Seq<Option<ValueView>>,
    args: Map<Seq<char>, Option<Seq<char>>>,
    j: int,
)
    requires
        first_clash(opts, opts.len() as int) is None,
        vals.len() == opts.len(),
        0 <= j < opts.len(),
        opts[j].file is Some,
        vals[j] matches Some(v) ==> has_type(v, opts[j].ty),
        vals[j] is None ==> opts[j].default is None,
        arg_of(opts[j], args) == ArgView::Absent,
    ensures
        resolved_prefix(
            opts,
            args,
            apply_writes(writes_of(opts, vals, opts.len() as int), empty_store()),
            opts.len() as int,
        ) matches Ok(vs) ==> vs[j] == vals[j],
{
    let store = apply_writes(writes_of(opts, vals, opts.len() as int), empty_store());
    lemma_write_then_read(opts, vals, j);
    if resolved_prefix(opts, args, store, opts.len() as int) is Ok {
        lemma_resolved_prefix_at(opts, args, store, opts.len() as int);
    }
}

} // verus!
