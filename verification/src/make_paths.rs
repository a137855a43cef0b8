//! Bookkeeping of the path and contour providers: the errors they report
//! and the summary of what was never asked for.
use vstd::prelude::*;

use crate::fig_writer::texts;
use crate::io_error::{io_error_kind_is_other, io_error_payload, other_io_error};

verus! {

/// An I/O error of kind `Other` that carries `message`.
pub fn error(message: &str) -> (e: std::io::Error)
    ensures
        io_error_kind_is_other(e),
        io_error_payload(e) == message@,
{
    other_io_error(message)
}

/// The names of `names` that are not in `seen`, in order.
pub open spec fn unused_names(names: Seq<Seq<char>>, seen: Seq<Seq<char>>) -> Seq<Seq<char>>
    decreases names.len(),
{
    if names.len() == 0 {
        names
    } else if seen.contains(names.last()) {
        unused_names(names.drop_last(), seen)
    } else {
        unused_names(names.drop_last(), seen).push(names.last())
    }
}

/// One line per item, each after a line break: `- item`, or `- "item"`
/// when `quoted`.
pub open spec fn listing(items: Seq<Seq<char>>, quoted: bool) -> Seq<char>
    decreases items.len(),
{
    if items.len() == 0 {
        Seq::empty()
    } else if quoted {
        listing(items.drop_last(), quoted) + "\n- \""@ + items.last() + "\""@
    } else {
        listing(items.drop_last(), quoted) + "\n- "@ + items.last()
    }
}

/// The summary of a provider of `kind` (paths or contours) whose unused
/// entries are `unused`.
pub open spec fn usage_report(kind: Seq<char>, unused: Seq<Seq<char>>, quoted: bool) -> Seq<char> {
    if unused.len() == 0 {
        "All "@ + kind + " were used."@
    } else {
        "The following "@ + kind + " were not used:"@ + listing(unused, quoted)
    }
}

/// A provider reports that everything was used exactly when every name it
/// holds was asked for.
pub proof fn lemma_all_used_iff_all_seen(names: Seq<Seq<char>>, seen: Seq<Seq<char>>)
    ensures
        unused_names(names, seen).len() == 0 <==> forall|i: int|
            0 <= i < names.len() ==> seen.contains(#[trigger] names[i]),
    decreases names.len(),
{
    if names.len() > 0 {
        let t = names.drop_last();
        lemma_all_used_iff_all_seen(t, seen);
        if forall|i: int| 0 <= i < names.len() ==> seen.contains(#[trigger] names[i]) {
            assert(seen.contains(names[names.len() - 1]));
            assert forall|i: int| 0 <= i < t.len() implies seen.contains(#[trigger] t[i]) by {
                assert(t[i] == names[i]);
            }
        }
        if unused_names(names, seen).len() == 0 {
            assert forall|i: int| 0 <= i < names.len() implies seen.contains(#[trigger] names[i]) by {
                if i < t.len() {
                    assert(t[i] == names[i]);
                }
            }
        }
    }
}

fn is_seen(seen: &Vec<String>, name: &String) -> (r: bool)
    ensures
        r == texts(seen@).contains(name@),
{
    let mut k: usize = 0;
    while k < seen.len()
        invariant
            k <= seen.len(),
            forall|j: int| 0 <= j < k ==> #[trigger] texts(seen@)[j] != name@,
        decreases seen.len() - k,
    {
        if seen[k] == *name {
            assert(texts(seen@)[k as int] == name@);
            return true;
        }
        k = k + 1;
    }
    false
}

fn usage_statistics(names: &Vec<String>, seen: &Vec<String>, kind: &str, quoted: bool) -> (r:
    String)
    ensures
        r@ == usage_report(kind@, unused_names(texts(names@), texts(seen@)), quoted),
{
    let mut list = String::new();
    let mut any_unused = false;
    let mut i: usize = 0;
    while i < names.len()
        invariant
            i <= names.len(),
            list@ == listing(unused_names(texts(names@).take(i as int), texts(seen@)), quoted),
            any_unused == (unused_names(texts(names@).take(i as int), texts(seen@)).len() > 0),
        decreases names.len() - i,
    {
        let ghost before = texts(names@).take(i as int);
        let ghost after = texts(names@).take(i + 1);
        assert(after.drop_last() == before);
        assert(after.last() == names@[i as int]@);
        let ghost u = unused_names(before, texts(seen@));
        if !is_seen(seen, &names[i]) {
            assert(unused_names(after, texts(seen@)) == u.push(names@[i as int]@));
            assert(u.push(names@[i as int]@).drop_last() == u);
            any_unused = true;
            if quoted {
                list.append("\n- \"");
                list.append(names[i].as_str());
                list.append("\"");
            } else {
                list.append("\n- ");
                list.append(names[i].as_str());
            }
        }
        i = i + 1;
    }
    assert(texts(names@).take(names.len() as int) == texts(names@));
    let mut r = String::new();
    if any_unused {
        r.append("The following ");
        r.append(kind);
        r.append(" were not used:");
        r.append(list.as_str());
    } else {
        r.append("All ");
        r.append(kind);
        r.append(" were used.");
    }
    r
}

/// The summary of a path provider: which of the paths `names` were never
/// asked for (`seen` holds the names asked for).
pub fn path_statistics(names: &Vec<String>, seen: &Vec<String>) -> (r: String)
    ensures
        r@ == usage_report("paths"@, unused_names(texts(names@), texts(seen@)), true),
{
    usage_statistics(names, seen, "paths", true)
}

/// The summary of a contour provider: which of the coupling constants
/// `names` (in their short text form) were never asked for.
pub fn contour_statistics(names: &Vec<String>, seen: &Vec<String>) -> (r: String)
    ensures
        r@ == usage_report("contours"@, unused_names(texts(names@), texts(seen@)), false),
{
    usage_statistics(names, seen, "contours", false)
}

/// The message of the error for a name that a provider does not hold.
pub open spec fn missing_entry_message(what: Seq<char>, name: Seq<char>) -> Seq<char> {
    "Could not find "@ + what + " for "@ + name
}

/// The error a path provider reports for a path it does not hold.
pub fn missing_path_error(name: &str) -> (e: std::io::Error)
    ensures
        io_error_kind_is_other(e),
        io_error_payload(e) == missing_entry_message("path"@, name@),
{
    let mut message = String::new();
    message.append("Could not find path for ");
    message.append(name);
    proof {
        assert(message@ == "Could not find path for "@ + name@);
        reveal_strlit("Could not find path for ");
        reveal_strlit("Could not find ");
        reveal_strlit("path");
        reveal_strlit(" for ");
        assert("Could not find path for "@ == "Could not find "@ + "path"@ + " for "@);
    }
    error(message.as_str())
}

/// The error a path provider reports for a path whose start it does not
/// hold.
pub fn missing_start_error(name: &str) -> (e: std::io::Error)
    ensures
        io_error_kind_is_other(e),
        io_error_payload(e) == missing_entry_message("start"@, name@),
{
    let mut message = String::new();
    message.append("Could not find start for ");
    message.append(name);
    proof {
        reveal_strlit("Could not find start for ");
        reveal_strlit("Could not find ");
        reveal_strlit("start");
        reveal_strlit(" for ");
        assert("Could not find start for "@ == "Could not find "@ + "start"@ + " for "@);
    }
    error(message.as_str())
}

} // verus!
