//! Schema compilation: every field's declaration is compiled in order, then
//! the resolved identifiers (short names, long names and file keys) are
//! checked to be unique across the whole schema.
use vstd::prelude::*;
use crate::attrs::{BasicOptAttrs, compiled, lemma_compiled_wf};
use crate::error::{Error, ErrorKind, ErrorKindView, ErrorView};
use crate::opt::{Opt, OptView, opt_wf};

verus! {

/// A class of identifiers that must be unique across a schema.
#[derive(Debug, Clone, Copy, PartialEq, Eq, Structural)]
pub enum IdClass {
    Short,
    Long,
    File,
}

/// The views of a list of descriptors.
pub open spec fn opts_view(opts: Seq<Opt>) -> Seq<OptView> {
    opts.map_values(|o: Opt| o@)
}

/// A descriptor's identifier of a class, if it has one: the short or long
/// name (with an empty first part), or the file section and key.
pub open spec fn ident_of(o: OptView, c: IdClass) -> Option<(Seq<char>, Seq<char>)> {
    match c {
        IdClass::Short => match o.arg {
            Some(a) => match a.short {
                Some(s) => Some((Seq::empty(), s)),
                None => None,
            },
            None => None,
        },
        IdClass::Long => match o.arg {
            Some(a) => match a.long {
                Some(l) => Some((Seq::empty(), l)),
                None => None,
            },
            None => None,
        },
        IdClass::File => match o.file {
            Some(f) => Some((f.section, f.name)),
            None => None,
        },
    }
}

pub open spec fn class_label(c: IdClass) -> Seq<char> {
    match c {
        IdClass::Short => "short"@,
        IdClass::Long => "long"@,
        IdClass::File => "file"@,
    }
}

/// How an identifier is shown in an error: the name, or for a file key the
/// section and the key joined by a dot.
pub open spec fn ident_label(c: IdClass, id: (Seq<char>, Seq<char>)) -> Seq<char> {
    match c {
        IdClass::File => id.0 + "."@ + id.1,
        _ => id.1,
    }
}

/// The first of the descriptors below `n` that holds the identifier.
pub open spec fn first_holder(opts: Seq<OptView>, c: IdClass, id: (Seq<char>, Seq<char>), n: int) -> Option<int>
    decreases n,
{
    if n <= 0 {
        None
    } else {
        match first_holder(opts, c, id, n - 1) {
            Some(i) => Some(i),
            None => if ident_of(opts[n - 1], c) == Some(id) {
                Some(n - 1)
            } else {
                None
            },
        }
    }
}

/// The clash of descriptor `j` with an earlier one in a class.
pub open spec fn clash_in(opts: Seq<OptView>, j: int, c: IdClass) -> Option<ErrorView> {
    match ident_of(opts[j], c) {
        Some(id) => match first_holder(opts, c, id, j) {
            Some(i) => Some(
                ErrorView {
                    kind: ErrorKindView::ConflictIDs(class_label(c), ident_label(c, id), opts[i].name),
                    field: opts[j].name,
                },
            ),
            None => None,
        },
        None => None,
    }
}

/// The clash of descriptor `j` with an earlier one: short name first, then
/// long name, then file key.
pub open spec fn clash_at(opts: Seq<OptView>, j: int) -> Option<ErrorView> {
    match clash_in(opts, j, IdClass::Short) {
        Some(e) => Some(e),
        None => match clash_in(opts, j, IdClass::Long) {
            Some(e) => Some(e),
            None => clash_in(opts, j, IdClass::File),
        },
    }
}

/// The first clash among the descriptors below `n`, in declaration order.
pub open spec fn first_clash(opts: Seq<OptView>, n: int) -> Option<ErrorView>
    decreases n,
{
    if n <= 0 {
        None
    } else {
        match first_clash(opts, n - 1) {
            Some(e) => Some(e),
            None => clash_at(opts, n - 1),
        }
    }
}

/// The descriptors of the first `n` fields, or the first field's error.
pub open spec fn compiled_prefix(fields: Seq<BasicOptAttrs>, n: int) -> Result<Seq<OptView>, ErrorView>
    decreases n,
{
    if n <= 0 {
        Ok(Seq::empty())
    } else {
        match compiled_prefix(fields, n - 1) {
            Err(e) => Err(e),
            Ok(os) => match compiled(fields[n - 1]) {
                Err(e) => Err(e),
                Ok(o) => Ok(os.push(o)),
            },
        }
    }
}

/// What a schema compiles to: the descriptors of all fields, or the first
/// error in a field, or else the first identifier shared by two fields.
pub open spec fn schema_compiled(fields: Seq<BasicOptAttrs>) -> Result<Seq<OptView>, ErrorView> {
    match compiled_prefix(fields, fields.len() as int) {
        Err(e) => Err(e),
        Ok(os) => match first_clash(os, os.len() as int) {
            Some(e) => Err(e),
            None => Ok(os),
        },
    }
}

/// Whether `b` has an identifier of the class and `a` has the same one.
fn same_ident(a: &Opt, b: &Opt, c: IdClass) -> (r: bool)
    ensures
        r == (ident_of(b@, c) is Some && ident_of(a@, c) == ident_of(b@, c)),
{
    match c {
        IdClass::Short => match (&a.arg, &b.arg) {
            (Some(x), Some(y)) => match (&x.short, &y.short) {
                (Some(s), Some(t)) => s.eq(t),
                _ => false,
            },
            _ => false,
        },
        IdClass::Long => match (&a.arg, &b.arg) {
            (Some(x), Some(y)) => match (&x.long, &y.long) {
                (Some(s), Some(t)) => s.eq(t),
                _ => false,
            },
            _ => false,
        },
        IdClass::File => match (&a.file, &b.file) {
            (Some(x), Some(y)) => x.section.eq(&y.section) && x.name.eq(&y.name),
            _ => false,
        },
    }
}

/// The text of a descriptor's identifier of a class.
fn ident_text(o: &Opt, c: IdClass) -> (r: String)
    requires
        ident_of(o@, c) is Some,
    ensures
        ident_of(o@, c) matches Some(id) && r@ == ident_label(c, id),
{
    match c {
        IdClass::Short => match &o.arg {
            Some(a) => match &a.short {
                Some(s) => s.clone(),
                None => String::new(),
            },
            None => String::new(),
        },
        IdClass::Long => match &o.arg {
            Some(a) => match &a.long {
                Some(l) => l.clone(),
                None => String::new(),
            },
            None => String::new(),
        },
        IdClass::File => match &o.file {
            Some(f) => {
                let mut t = f.section.clone();
                t.append(".");
                t.append(f.name.as_str());
                t
            },
            None => String::new(),
        },
    }
}

fn class_label_str(c: IdClass) -> (r: &'static str)
    ensures
        r@ == class_label(c),
{
    match c {
        IdClass::Short => "short",
        IdClass::Long => "long",
        IdClass::File => "file",
    }
}

proof fn lemma_first_holder_stays(opts: Seq<OptView>, c: IdClass, id: (Seq<char>, Seq<char>), n: int, m: int)
    requires
        first_holder(opts, c, id, n) is Some,
        n <= m,
    ensures
        first_holder(opts, c, id, m) == first_holder(opts, c, id, n),
    decreases m - n,
{
    if n < m {
        lemma_first_holder_stays(opts, c, id, n, m - 1);
    }
}

/// No descriptor below `n` holds an identifier that `first_holder` misses.
proof fn lemma_first_holder_none(opts: Seq<OptView>, c: IdClass, id: (Seq<char>, Seq<char>), n: int, k: int)
    requires
        first_holder(opts, c, id, n) is None,
        0 <= k < n,
    ensures
        ident_of(opts[k], c) != Some(id),
    decreases n,
{
    if k < n - 1 {
        lemma_first_holder_none(opts, c, id, n - 1, k);
    }
}

/// The earlier descriptor that shares descriptor `j`'s identifier of a
/// class, the first one if several do.
fn find_holder(opts: &Vec<Opt>, j: usize, c: IdClass) -> (r: Option<usize>)
    requires
        j < opts.len(),
    ensures
        match r {
            Some(i) => i < j && (ident_of(opts@[j as int]@, c) matches Some(id) && first_holder(
                opts_view(opts@),
                c,
                id,
                j as int,
            ) == Some(i as int)),
            None => ident_of(opts@[j as int]@, c) matches Some(id) ==> first_holder(
                opts_view(opts@),
                c,
                id,
                j as int,
            ) is None,
        },
{
    let ghost v = opts_view(opts@);
    let ghost id = ident_of(opts@[j as int]@, c);
    let mut i: usize = 0;
    while i < j
        invariant
            j < opts.len(),
            i <= j,
            v == opts_view(opts@),
            id == ident_of(opts@[j as int]@, c),
            id matches Some(x) ==> first_holder(v, c, x, i as int) is None,
        decreases j - i,
    {
        if same_ident(&opts[i], &opts[j], c) {
            proof {
                let x = id->0;
                assert(v[i as int] == opts@[i as int]@);
                assert(first_holder(v, c, x, i + 1) == Some(i as int));
                lemma_first_holder_stays(v, c, x, i + 1, j as int);
            }
            return Some(i);
        }
        proof {
            assert(v[i as int] == opts@[i as int]@);
        }
        i = i + 1;
    }
    None
}

/// Checks that no two descriptors share a short name, a long name or a file
/// section and key; the error names the later field, the identifier and the
/// earlier field.
pub fn check_conflicts(opts: &Vec<Opt>) -> (r: Result<(), Error>)
    ensures
        match first_clash(opts_view(opts@), opts@.len() as int) {
            Some(e) => r matches Err(x) && x@ == e,
            None => r is Ok,
        },
{
    let ghost v = opts_view(opts@);
    let mut j: usize = 0;
    while j < opts.len()
        invariant
            j <= opts.len(),
            v == opts_view(opts@),
            first_clash(v, j as int) is None,
        decreases opts.len() - j,
    {
        let classes = [IdClass::Short, IdClass::Long, IdClass::File];
        let mut k: usize = 0;
        while k < 3
            invariant
                j < opts.len(),
                k <= 3,
                v == opts_view(opts@),
                first_clash(v, j as int) is None,
                classes@ == seq![IdClass::Short, IdClass::Long, IdClass::File],
                k >= 1 ==> clash_in(v, j as int, IdClass::Short) is None,
                k >= 2 ==> clash_in(v, j as int, IdClass::Long) is None,
                k >= 3 ==> clash_in(v, j as int, IdClass::File) is None,
            decreases 3 - k,
        {
            let c = classes[k];
            assert(v[j as int] == opts@[j as int]@);
            match find_holder(opts, j, c) {
                Some(i) => {
                    assert(v[i as int] == opts@[i as int]@);
                    let kind = ErrorKind::ConflictIDs(
                        class_label_str(c).to_owned(),
                        ident_text(&opts[j], c),
                        opts[i].name.clone(),
                    );
                    let err = Error::new(kind, opts[j].name.as_str());
                    proof {
                        assert(clash_in(v, j as int, c) == Some(err@));
                        assert(clash_at(v, j as int) == Some(err@));
                        assert(first_clash(v, j + 1) == Some(err@));
                        lemma_first_clash_stays(v, j + 1, opts@.len() as int);
                    }
                    return Err(err);
                },
                None => {},
            }
            k = k + 1;
        }
        j = j + 1;
    }
    Ok(())
}

/// Compiles a schema: each field in declaration order, then the check that
/// no identifier is shared. Each field name is non-empty, as an identifier
/// is.
pub fn derive_conf(fields: &Vec<BasicOptAttrs>) -> (r: Result<Vec<Opt>, Error>)
    requires
        forall|i: int| 0 <= i < fields@.len() ==> (#[trigger] fields@[i]).name@.len() > 0,
    ensures
        match schema_compiled(fields@) {
            Ok(os) => r matches Ok(v) && opts_view(v@) == os,
            Err(e) => r matches Err(x) && x@ == e,
        },
        r matches Ok(v) ==> forall|i: int| 0 <= i < v@.len() ==> opt_wf(#[trigger] v@[i]@),
{
    let mut opts: Vec<Opt> = Vec::new();
    let mut i: usize = 0;
    assert(opts_view(opts@) =~= Seq::<OptView>::empty());
    while i < fields.len()
        invariant
            i <= fields.len(),
            forall|k: int| 0 <= k < fields@.len() ==> (#[trigger] fields@[k]).name@.len() > 0,
            compiled_prefix(fields@, i as int) == Ok::<Seq<OptView>, ErrorView>(opts_view(opts@)),
            forall|k: int| 0 <= k < opts@.len() ==> opt_wf(#[trigger] opts@[k]@),
        decreases fields.len() - i,
    {
        match fields[i].parse_opt() {
            Ok(o) => {
                proof {
                    assert(opts_view(opts@.push(o)) =~= opts_view(opts@).push(o@));
                    lemma_compiled_wf(fields@[i as int]);
                }
                opts.push(o);
            },
            Err(e) => {
                proof {
                    lemma_prefix_error_stays(fields@, i as int + 1, fields@.len() as int);
                }
                return Err(e);
            },
        }
        i = i + 1;
    }
    assert(opts_view(opts@).len() == opts@.len());
    match check_conflicts(&opts) {
        Ok(()) => Ok(opts),
        Err(e) => Err(e),
    }
}

proof fn lemma_first_clash_stays(opts: Seq<OptView>, n: int, m: int)
    requires
        first_clash(opts, n) is Some,
        n <= m,
    ensures
        first_clash(opts, m) == first_clash(opts, n),
    decreases m - n,
{
    if n < m {
        lemma_first_clash_stays(opts, n, m - 1);
    }
}

proof fn lemma_prefix_error_stays(fields: Seq<BasicOptAttrs>, n: int, m: int)
    requires
        compiled_prefix(fields, n) is Err,
        n <= m,
    ensures
        compiled_prefix(fields, m) == compiled_prefix(fields, n),
    decreases m - n,
{
    if n < m {
        lemma_prefix_error_stays(fields, n, m - 1);
    }
}

proof fn lemma_first_holder_found(opts: Seq<OptView>, c: IdClass, id: (Seq<char>, Seq<char>), n: int)
    requires
        first_holder(opts, c, id, n) is Some,
    ensures
        0 <= first_holder(opts, c, id, n)->0 < n,
        ident_of(opts[first_holder(opts, c, id, n)->0], c) == Some(id),
    decreases n,
{
    if n > 0 && first_holder(opts, c, id, n - 1) is Some {
        lemma_first_holder_found(opts, c, id, n - 1);
    }
}

proof fn lemma_first_holder_some(opts: Seq<OptView>, c: IdClass, id: (Seq<char>, Seq<char>), n: int, k: int)
    requires
        0 <= k < n,
        ident_of(opts[k], c) == Some(id),
    ensures
        first_holder(opts, c, id, n) is Some,
    decreases n,
{
    if k < n - 1 {
        lemma_first_holder_some(opts, c, id, n - 1, k);
    }
}

/// The first clash names a later and an earlier field that share an
/// identifier of the class it names.
proof fn lemma_first_clash_names(opts: Seq<OptView>, n: int)
    requires
        first_clash(opts, n) is Some,
    ensures
        exists|i: int, j: int, d: IdClass, id: (Seq<char>, Seq<char>)|
            0 <= i < j < n && ident_of(opts[i], d) == Some(id) && ident_of(opts[j], d) == Some(id)
                && first_clash(opts, n) == Some(
                ErrorView {
                    kind: ErrorKindView::ConflictIDs(class_label(d), ident_label(d, id), opts[i].name),
                    field: opts[j].name,
                },
            ),
    decreases n,
{
    if first_clash(opts, n - 1) is Some {
        lemma_first_clash_names(opts, n - 1);
        let (i, j, d, id) = choose|i: int, j: int, d: IdClass, id: (Seq<char>, Seq<char>)|
            0 <= i < j < n - 1 && ident_of(opts[i], d) == Some(id) && ident_of(opts[j], d) == Some(id)
                && first_clash(opts, n - 1) == Some(
                ErrorView {
                    kind: ErrorKindView::ConflictIDs(class_label(d), ident_label(d, id), opts[i].name),
                    field: opts[j].name,
                },
            );
        assert(0 <= i < j < n);
    } else {
        let j = n - 1;
        let d = if clash_in(opts, j, IdClass::Short) is Some {
            IdClass::Short
        } else if clash_in(opts, j, IdClass::Long) is Some {
            IdClass::Long
        } else {
            IdClass::File
        };
        let id = ident_of(opts[j], d)->0;
        lemma_first_holder_found(opts, d, id, j);
        let i = first_holder(opts, d, id, j)->0;
        assert(0 <= i < j < n && ident_of(opts[i], d) == Some(id) && ident_of(opts[j], d) == Some(id));
    }
}

/// Two descriptors of a list that share a short name, a long name or a file
/// section and key make the uniqueness check fail with an identifier
/// conflict. The error names two descriptors that share an identifier of the
/// class it names: in a list of two, the later and the earlier one.
pub proof fn lemma_shared_ident_detected(opts: Seq<OptView>, k: int, l: int, c: IdClass)
    requires
        0 <= k < l < opts.len(),
        ident_of(opts[k], c) is Some,
        ident_of(opts[k], c) == ident_of(opts[l], c),
    ensures
        first_clash(opts, opts.len() as int) is Some,
        first_clash(opts, opts.len() as int)->0.kind is ConflictIDs,
        ({
            let e = first_clash(opts, opts.len() as int)->0;
            exists|i: int, j: int, d: IdClass, id: (Seq<char>, Seq<char>)|
                0 <= i < j < opts.len() && ident_of(opts[i], d) == Some(id) && ident_of(opts[j], d)
                    == Some(id) && e == (ErrorView {
                    kind: ErrorKindView::ConflictIDs(class_label(d), ident_label(d, id), opts[i].name),
                    field: opts[j].name,
                })
        }),
        opts.len() == 2 ==> ({
            let e = first_clash(opts, 2)->0;
            e.field == opts[1].name && e.kind->ConflictIDs_2 == opts[0].name
        }),
{
    let n = opts.len() as int;
    let id = ident_of(opts[k], c)->0;
    if first_clash(opts, l) is None {
        lemma_first_holder_some(opts, c, id, l, k);
        assert(clash_in(opts, l, c) is Some);
        assert(first_clash(opts, l + 1) is Some);
        lemma_first_clash_stays(opts, l + 1, n);
    } else {
        lemma_first_clash_stays(opts, l, n);
    }
    lemma_first_clash_names(opts, n);
}

/// Two fields that compile but share a short name, a long name or a file
/// section and key make schema compilation fail with that identifier
/// conflict.
pub proof fn lemma_shared_ident_rejected(fields: Seq<BasicOptAttrs>, k: int, l: int, c: IdClass)
    requires
        compiled_prefix(fields, fields.len() as int) is Ok,
        0 <= k < l < fields.len(),
        ident_of(compiled_prefix(fields, fields.len() as int)->Ok_0[k], c) is Some,
        ident_of(compiled_prefix(fields, fields.len() as int)->Ok_0[k], c) == ident_of(
            compiled_prefix(fields, fields.len() as int)->Ok_0[l],
            c,
        ),
    ensures
        schema_compiled(fields) is Err,
        schema_compiled(fields) == Err::<Seq<OptView>, ErrorView>(
            first_clash(
                compiled_prefix(fields, fields.len() as int)->Ok_0,
                fields.len() as int,
            )->0,
        ),
        schema_compiled(fields)->Err_0.kind is ConflictIDs,
{
    let n = fields.len() as int;
    lemma_prefix_len(fields, n);
    lemma_shared_ident_detected(compiled_prefix(fields, n)->Ok_0, k, l, c);
}

proof fn lemma_prefix_len(fields: Seq<BasicOptAttrs>, n: int)
    requires
        0 <= n,
        compiled_prefix(fields, n) is Ok,
    ensures
        compiled_prefix(fields, n)->Ok_0.len() == n,
    decreases n,
{
    if n > 0 {
        lemma_prefix_len(fields, n - 1);
    }
}

proof fn lemma_no_clash_prefix(opts: Seq<OptView>, n: int, m: int)
    requires
        first_clash(opts, n) is None,
        m <= n,
    ensures
        first_clash(opts, m) is None,
    decreases n - m,
{
    if m < n {
        lemma_no_clash_prefix(opts, n - 1, m);
    }
}

/// In a schema without clashes, no two descriptors share an identifier.
pub proof fn lemma_no_clash_distinct(opts: Seq<OptView>, n: int, k: int, l: int, c: IdClass)
    requires
        first_clash(opts, n) is None,
        0 <= k < l < n,
        ident_of(opts[l], c) is Some,
    ensures
        ident_of(opts[k], c) != ident_of(opts[l], c),
{
    lemma_no_clash_prefix(opts, n, l + 1);
    assert(clash_at(opts, l) is None);
    assert(clash_in(opts, l, c) is None);
    lemma_first_holder_none(opts, c, ident_of(opts[l], c)->0, l, k);
}

} // verus!
