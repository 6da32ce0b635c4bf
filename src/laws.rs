use vstd::prelude::*;
use crate::header::bindings_header;
use crate::number::{all_digits, decimal_value, is_digit};
use crate::plan::{plan_of, PlanModel};
use crate::symbols::{
    apply_row, is_entry, is_first, symbols_of, version_of, SymbolError, SymbolsModel, VISIBILITY_PUBLIC,
};

verus! {

/// Both manifests give the same symbols, or both are refused.
pub open spec fn same_outcome(
    a: Result<SymbolsModel, SymbolError>,
    b: Result<SymbolsModel, SymbolError>,
) -> bool {
    match (a, b) {
        (Ok(x), Ok(y)) => x == y,
        (Err(_), Err(_)) => true,
        _ => false,
    }
}

/// The values of the public records of one kind, in manifest order,
/// repeated values included.
pub open spec fn entries(rows: Seq<Seq<Seq<char>>>, kind: Seq<char>) -> Seq<Seq<char>> {
    rows.filter_map(
        |r: Seq<Seq<char>>|
            if is_entry(r, kind) {
                Some(r[2])
            } else {
                None
            },
    )
}

proof fn lemma_same_step(
    a: Seq<Seq<Seq<char>>>,
    b: Seq<Seq<Seq<char>>>,
    r: Seq<Seq<char>>,
)
    requires
        same_outcome(symbols_of(a), symbols_of(b)),
    ensures
        same_outcome(symbols_of(a.push(r)), symbols_of(b.push(r))),
{
    assert(a.push(r).drop_last() == a);
    assert(b.push(r).drop_last() == b);
    assert(a.push(r).last() == r);
    assert(b.push(r).last() == r);
}

proof fn lemma_hidden_prefix(rows: Seq<Seq<Seq<char>>>, i: int, r: Seq<Seq<char>>, k: int)
    requires
        0 <= i <= k <= rows.len(),
        r.len() == 3,
        r[1] != VISIBILITY_PUBLIC@,
    ensures
        same_outcome(symbols_of(rows.insert(i, r).take(k + 1)), symbols_of(rows.take(k))),
    decreases k - i,
{
    let ins = rows.insert(i, r);
    if k == i {
        assert(ins.take(k + 1) == rows.take(k).push(r));
        assert(ins.take(k + 1).drop_last() == rows.take(k));
        let s = symbols_of(rows.take(k));
        if s is Ok {
            assert(apply_row(s->Ok_0, r, k) == s);
        }
    } else {
        lemma_hidden_prefix(rows, i, r, k - 1);
        assert(ins.take(k + 1) == ins.take(k).push(rows[k - 1]));
        assert(rows.take(k) == rows.take(k - 1).push(rows[k - 1]));
        lemma_same_step(ins.take(k), rows.take(k - 1), rows[k - 1]);
    }
}

/// A record that is not marked public changes nothing: inserted anywhere
/// in a manifest, the same symbols come out, or the manifest is refused
/// either way.
pub proof fn lemma_hidden_row_ignored(rows: Seq<Seq<Seq<char>>>, i: int, r: Seq<Seq<char>>)
    requires
        0 <= i <= rows.len(),
        r.len() == 3,
        r[1] != VISIBILITY_PUBLIC@,
    ensures
        same_outcome(symbols_of(rows.insert(i, r)), symbols_of(rows)),
{
    lemma_hidden_prefix(rows, i, r, rows.len() as int);
    assert(rows.insert(i, r).take(rows.len() as int + 1) == rows.insert(i, r));
    assert(rows.take(rows.len() as int) == rows);
}

proof fn lemma_kinds_differ()
    ensures
        "Header"@ != "Version"@,
        "Function"@ != "Version"@,
        "Function"@ != "Header"@,
        "Variable"@ != "Version"@,
        "Variable"@ != "Header"@,
        "Variable"@ != "Function"@,
{
    reveal_strlit("Header");
    reveal_strlit("Version");
    reveal_strlit("Function");
    reveal_strlit("Variable");
    assert("Header"@.len() != "Version"@.len());
    assert("Function"@.len() != "Version"@.len());
    assert("Function"@.len() != "Header"@.len());
    assert("Variable"@.len() != "Version"@.len());
    assert("Variable"@.len() != "Header"@.len());
    assert("Variable"@[0] != "Function"@[0]);
}

/// The header, function and variable lists are the values of the public
/// records of each kind, in manifest order and with repeats kept.
pub proof fn lemma_lists_follow_rows(rows: Seq<Seq<Seq<char>>>)
    requires
        symbols_of(rows) is Ok,
    ensures
        symbols_of(rows)->Ok_0.headers == entries(rows, "Header"@),
        symbols_of(rows)->Ok_0.functions == entries(rows, "Function"@),
        symbols_of(rows)->Ok_0.variables == entries(rows, "Variable"@),
    decreases rows.len(),
{
    if rows.len() > 0 {
        let rest = rows.drop_last();
        if symbols_of(rest) is Err {
            assert(symbols_of(rows) is Err);
        } else {
            lemma_lists_follow_rows(rest);
            let r = rows.last();
            if r.len() == 3 && r[1] == VISIBILITY_PUBLIC@ {
                lemma_kinds_differ();
                let m = symbols_of(rest)->Ok_0;
                assert(m.headers.push(r[2]) == m.headers + seq![r[2]]);
                assert(m.functions.push(r[2]) == m.functions + seq![r[2]]);
                assert(m.variables.push(r[2]) == m.variables + seq![r[2]]);
            }
        }
    } else {
        assert(entries(rows, "Header"@) == Seq::<Seq<char>>::empty());
    }
}

/// The backend call is a function of its inputs alone: the same root,
/// toolchain, flags and symbols give the same header, arguments and
/// allow-list, in the same order.
pub proof fn lemma_plan_repeatable(
    sdk_root: Seq<char>,
    toolchain: Seq<char>,
    cc_flags: Seq<Seq<char>>,
    first: SymbolsModel,
    second: SymbolsModel,
)
    requires
        first == second,
    ensures
        plan_of(sdk_root, toolchain, cc_flags, first) == plan_of(
            sdk_root,
            toolchain,
            cc_flags,
            second,
        ),
        bindings_header(first.api_version, first.headers) == bindings_header(
            second.api_version,
            second.headers,
        ),
{
}

/// A version written `<major>.<minor>`, both in decimal digits and at most
/// 65535, packs as `major * 2^16 + minor`, which is `(major << 16) | minor`.
pub proof fn lemma_version_packing(major: Seq<char>, minor: Seq<char>)
    requires
        major.len() > 0,
        minor.len() > 0,
        all_digits(major),
        all_digits(minor),
        decimal_value(major) <= 0xffff,
        decimal_value(minor) <= 0xffff,
    ensures
        version_of(major + seq!['.'] + minor) == Some(
            (decimal_value(major) * 0x10000 + decimal_value(minor)) as u32,
        ),
{
    let s = major + seq!['.'] + minor;
    let n = major.len() as int;
    assert(s[n] == '.');
    assert(forall|j: int| 0 <= j < n ==> s[j] == major[j]);
    assert forall|j: int| 0 <= j < n implies s[j] != '.' by {
        assert(is_digit(major[j]));
    }
    assert(is_first(s, '.', n));
    let k = choose|k: int| is_first(s, '.', k);
    assert(k == n) by {
        if k < n {
        } else if k > n {
        }
    }
    assert(s.take(n) == major);
    assert(s.skip(n + 1) == minor);
    assert(is_digit(major[0]));
    assert(is_digit(minor[0]));
}

} // verus!
