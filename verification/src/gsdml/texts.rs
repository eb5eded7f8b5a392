//! The text table of a document: what it defines is what the document refers to, each text
//! once.

use vstd::prelude::*;

use crate::config;
use crate::config::FieldRef;
use crate::data::FieldType;
use crate::gsdml::{self, GsdmlMeta, TextView};
use crate::text;

verus! {

// ---------------------------------------------------------------------------------
// What is referred to
// ---------------------------------------------------------------------------------

/// Whether the access point, the interface or the port refers to the text `id`.
pub open spec fn device_refers(id: Seq<char>) -> bool {
    id == "T_InfoText"@ || id == "T_DAP_Name"@ || id == "T_DAP_Info"@ || id == "T_Interface"@ || id
        == "T_Port1"@
}

/// Whether the first `k` fields of one direction refer to the text `id`.
pub open spec fn fields_refer(
    n: u16,
    prefix: Seq<char>,
    refs: Seq<FieldRef>,
    k: int,
    id: Seq<char>,
) -> bool {
    exists|i: int| 0 <= i < k && #[trigger] gsdml::field_ids(n, prefix, refs, i).contains(id)
}

/// Whether a module refers to the text `id`.
pub open spec fn module_refers(s: config::SubmoduleView, id: Seq<char>) -> bool {
    ||| id == gsdml::module_id(s.slot.0, "_Name"@)
    ||| id == gsdml::module_id(s.slot.0, "_Info"@)
    ||| fields_refer(
        s.slot.0,
        "In"@,
        config::field_refs(s.inputs),
        s.inputs.len() as int,
        id,
    )
    ||| fields_refer(
        s.slot.0,
        "Out"@,
        config::field_refs(s.outputs),
        s.outputs.len() as int,
        id,
    )
}

/// Whether one of the first `k` modules refers to the text `id`.
pub open spec fn modules_refer(cfg: config::ConfigView, k: int, id: Seq<char>) -> bool {
    exists|m: int| 0 <= m < k && module_refers(#[trigger] cfg.submodules[m], id)
}

/// Whether no two texts have the same id.
pub open spec fn distinct(texts: Seq<TextView>) -> bool {
    forall|i: int, j: int|
        0 <= i < j < texts.len() ==> (#[trigger] texts[i]).id != (#[trigger] texts[j]).id
}

// ---------------------------------------------------------------------------------
// Ids
// ---------------------------------------------------------------------------------

/// Whether `c` is a decimal digit.
pub open spec fn is_digit(c: char) -> bool {
    '0' <= c <= '9'
}

/// Whether `s` holds nothing but decimal digits.
pub open spec fn all_digits(s: Seq<char>) -> bool {
    forall|i: int| 0 <= i < s.len() ==> is_digit(#[trigger] s[i])
}

/// The number that decimal digits denote.
pub open spec fn number(s: Seq<char>) -> int
    decreases s.len(),
{
    if s.len() == 0 {
        0
    } else {
        number(s.drop_last()) * 10 + (s.last() as int - '0' as int)
    }
}

/// The digits of a number denote it.
pub proof fn dec_text_reads_back(v: int)
    requires
        0 <= v,
    ensures
        all_digits(text::dec_text(v)),
        number(text::dec_text(v)) == v,
    decreases v,
{
    let s = text::dec_text(v);
    if v < 10 {
        assert(s.drop_last() =~= Seq::empty());
        assert(number(s.drop_last()) == 0);
    } else {
        dec_text_reads_back(v / 10);
        assert(s.drop_last() =~= text::dec_text(v / 10));
    }
}

/// Digits that end where no digit follows are told apart from what follows.
proof fn lemma_digits_end(a: Seq<char>, x: Seq<char>, b: Seq<char>, y: Seq<char>)
    requires
        all_digits(a),
        all_digits(b),
        x.len() > 0 ==> !is_digit(x[0]),
        y.len() > 0 ==> !is_digit(y[0]),
        a + x == b + y,
    ensures
        a == b,
        x == y,
{
    let s = a + x;
    if a.len() < b.len() {
        assert(s[a.len() as int] == b[a.len() as int]);
        assert(s[a.len() as int] == x[0]);
    } else if b.len() < a.len() {
        assert(s[b.len() as int] == a[b.len() as int]);
        assert(s[b.len() as int] == y[0]);
    }
    assert(a =~= s.take(a.len() as int));
    assert(b =~= s.take(b.len() as int));
    assert(x =~= s.skip(a.len() as int));
    assert(y =~= s.skip(b.len() as int));
}

/// Numbers followed by something else than a digit are told apart from it.
proof fn lemma_numbers_end(v: int, x: Seq<char>, w: int, y: Seq<char>)
    requires
        0 <= v,
        0 <= w,
        x.len() > 0 ==> !is_digit(x[0]),
        y.len() > 0 ==> !is_digit(y[0]),
        text::dec_text(v) + x == text::dec_text(w) + y,
    ensures
        v == w,
        x == y,
{
    dec_text_reads_back(v);
    dec_text_reads_back(w);
    lemma_digits_end(text::dec_text(v), x, text::dec_text(w), y);
}

/// Behind the same start, equal texts go on equally.
proof fn lemma_same_start(a: Seq<char>, x: Seq<char>, y: Seq<char>)
    requires
        a + x == a + y,
    ensures
        x == y,
{
    assert(x =~= (a + x).skip(a.len() as int));
    assert(y =~= (a + y).skip(a.len() as int));
}

/// The id of a text of a slot: the slot, then `rest`.
pub open spec fn slot_id(n: u16, rest: Seq<char>) -> Seq<char> {
    "M"@ + (text::dec_text(n as int) + ("_"@ + rest))
}

/// Slot and rest are told by the id.
proof fn lemma_slot_id(n: u16, x: Seq<char>, m: u16, y: Seq<char>)
    requires
        slot_id(n, x) == slot_id(m, y),
    ensures
        n == m,
        x == y,
{
    reveal_strlit("_");
    let (p, q) = ("_"@ + x, "_"@ + y);
    lemma_same_start("M"@, text::dec_text(n as int) + p, text::dec_text(m as int) + q);
    assert(p[0] == '_' && q[0] == '_');
    lemma_numbers_end(n as int, p, m as int, q);
    lemma_same_start("_"@, x, y);
}

/// Whether `x` is one of the endings of a field's id.
pub open spec fn is_ending(x: Seq<char>) -> bool {
    x == ""@ || x == "_bits"@ || x == "_b"@
}

/// The id of a field's text: the slot, the direction, the field and an ending.
pub open spec fn field_id(n: u16, prefix: Seq<char>, i: int, ending: Seq<char>) -> Seq<char> {
    slot_id(n, prefix + (text::dec_text(i) + ending))
}

/// The three ids of a field are told apart by their endings.
proof fn lemma_field_id(n: u16, prefix: Seq<char>, i: int, x: Seq<char>, j: int, y: Seq<char>)
    requires
        0 <= i,
        0 <= j,
        is_ending(x),
        is_ending(y),
        field_id(n, prefix, i, x) == field_id(n, prefix, j, y),
    ensures
        i == j,
        x == y,
{
    reveal_strlit("");
    reveal_strlit("_bits");
    reveal_strlit("_b");
    let (p, q) = (text::dec_text(i) + x, text::dec_text(j) + y);
    lemma_slot_id(n, prefix + p, n, prefix + q);
    lemma_same_start(prefix, p, q);
    lemma_numbers_end(i, x, j, y);
}

/// The ids of fields and modules, written from the slot on.
proof fn lemma_ids(n: u16, prefix: Seq<char>, i: int)
    ensures
        gsdml::scalar_id(n, prefix, i) == field_id(n, prefix, i, ""@),
        gsdml::bits_id(n, prefix, i) == field_id(n, prefix, i, "_bits"@),
        gsdml::bit_id(n, prefix, i) == field_id(n, prefix, i, "_b"@),
        gsdml::module_id(n, "_Name"@) == slot_id(n, "Name"@),
        gsdml::module_id(n, "_Info"@) == slot_id(n, "Info"@),
{
    assert(gsdml::scalar_id(n, prefix, i) =~= field_id(n, prefix, i, ""@));
    assert(gsdml::bits_id(n, prefix, i) =~= field_id(n, prefix, i, "_bits"@));
    assert(gsdml::bit_id(n, prefix, i) =~= field_id(n, prefix, i, "_b"@));
    assert("_Name"@ =~= "_"@ + "Name"@ && "_Info"@ =~= "_"@ + "Info"@) by {
        reveal_strlit("_Name");
        reveal_strlit("_Info");
        reveal_strlit("_");
        reveal_strlit("Name");
        reveal_strlit("Info");
    }
    assert(gsdml::module_id(n, "_Name"@) =~= slot_id(n, "Name"@));
    assert(gsdml::module_id(n, "_Info"@) =~= slot_id(n, "Info"@));
}

// ---------------------------------------------------------------------------------
// Tables
// ---------------------------------------------------------------------------------

pub proof fn lemma_defines_join(a: Seq<TextView>, b: Seq<TextView>, id: Seq<char>)
    ensures
        gsdml::defines(a + b, id) == (gsdml::defines(a, id) || gsdml::defines(b, id)),
{
    let s = a + b;
    if gsdml::defines(s, id) {
        let j = choose|j: int| 0 <= j < s.len() && (#[trigger] s[j]).id == id;
        if j < a.len() {
            assert(a[j].id == id);
        } else {
            assert(b[j - a.len()].id == id);
        }
    }
    if gsdml::defines(a, id) {
        let j = choose|j: int| 0 <= j < a.len() && (#[trigger] a[j]).id == id;
        assert(s[j].id == id);
    }
    if gsdml::defines(b, id) {
        let j = choose|j: int| 0 <= j < b.len() && (#[trigger] b[j]).id == id;
        assert(s[a.len() + j].id == id);
    }
}

/// Two tables that share no id are distinct together if each is.
proof fn lemma_distinct_join(a: Seq<TextView>, b: Seq<TextView>)
    requires
        distinct(a),
        distinct(b),
        forall|id: Seq<char>| #[trigger] gsdml::defines(a, id) ==> !gsdml::defines(b, id),
    ensures
        distinct(a + b),
{
    let s = a + b;
    assert forall|i: int, j: int| 0 <= i < j < s.len() implies (#[trigger] s[i]).id != (
    #[trigger] s[j]).id by {
        if j < a.len() {
            assert(a[i].id != a[j].id);
        } else if i >= a.len() {
            assert(b[i - a.len()].id != b[j - a.len()].id);
        } else {
            assert(a[i].id == s[i].id);
            assert(gsdml::defines(a, s[i].id));
            if s[i].id == s[j].id {
                assert(b[j - a.len()].id == s[j].id);
                assert(gsdml::defines(b, s[i].id));
            }
        }
    }
}

/// The texts of one field: those that its lines refer to, each once.
proof fn lemma_field_texts(n: u16, prefix: Seq<char>, refs: Seq<FieldRef>, i: int)
    requires
        0 <= i < refs.len(),
    ensures
        distinct(gsdml::field_texts(n, prefix, refs, i)),
        forall|id: Seq<char>| #[trigger]
            gsdml::defines(gsdml::field_texts(n, prefix, refs, i), id) == gsdml::field_ids(
                n,
                prefix,
                refs,
                i,
            ).contains(id),
        forall|id: Seq<char>| #[trigger]
            gsdml::field_ids(n, prefix, refs, i).contains(id) ==> exists|x: Seq<char>|
                is_ending(x) && id == #[trigger] field_id(n, prefix, i, x),
{
    let texts = gsdml::field_texts(n, prefix, refs, i);
    lemma_ids(n, prefix, i);
    if refs[i].ty == FieldType::Bool && !gsdml::joins_previous(refs, i) {
        if gsdml::bits_id(n, prefix, i) == gsdml::bit_id(n, prefix, i) {
            lemma_field_id(n, prefix, i, "_bits"@, i, "_b"@);
            reveal_strlit("_bits");
            reveal_strlit("_b");
        }
        assert(texts.len() == 2);
        assert(texts[0].id == gsdml::bits_id(n, prefix, i));
        assert(texts[1].id == gsdml::bit_id(n, prefix, i));
    } else {
        assert(texts.len() == 1);
        assert(texts[0] == texts[0]);
    }
    assert forall|id: Seq<char>| #[trigger]
        gsdml::defines(texts, id) == gsdml::field_ids(n, prefix, refs, i).contains(id) by {
        if gsdml::field_ids(n, prefix, refs, i).contains(id) {
            assert(texts[0].id == id || texts[1].id == id);
        }
    }
    assert forall|id: Seq<char>| #[trigger]
        gsdml::field_ids(n, prefix, refs, i).contains(id) implies exists|x: Seq<char>|
        is_ending(x) && id == #[trigger] field_id(n, prefix, i, x) by {
        assert(is_ending(""@) && is_ending("_bits"@) && is_ending("_b"@));
        if id == gsdml::scalar_id(n, prefix, i) {
            assert(id == field_id(n, prefix, i, ""@));
        } else if id == gsdml::bits_id(n, prefix, i) {
            assert(id == field_id(n, prefix, i, "_bits"@));
        } else {
            assert(id == field_id(n, prefix, i, "_b"@));
        }
    }
}

/// The texts of fields: those that their lines refer to, each once.
proof fn lemma_texts_of(n: u16, prefix: Seq<char>, refs: Seq<FieldRef>, k: int)
    requires
        0 <= k <= refs.len(),
    ensures
        distinct(gsdml::texts_of(n, prefix, refs, k)),
        forall|id: Seq<char>| #[trigger]
            gsdml::defines(gsdml::texts_of(n, prefix, refs, k), id) == fields_refer(
                n,
                prefix,
                refs,
                k,
                id,
            ),
    decreases k,
{
    if k > 0 {
        let i = k - 1;
        let (a, b) = (gsdml::texts_of(n, prefix, refs, i), gsdml::field_texts(n, prefix, refs, i));
        lemma_texts_of(n, prefix, refs, i);
        lemma_field_texts(n, prefix, refs, i);
        assert forall|id: Seq<char>| #[trigger] gsdml::defines(a, id) implies !gsdml::defines(
            b,
            id,
        ) by {
            let j = choose|j: int|
                0 <= j < i && #[trigger] gsdml::field_ids(n, prefix, refs, j).contains(id);
            lemma_field_texts(n, prefix, refs, j);
            if gsdml::defines(b, id) {
                let x = choose|x: Seq<char>|
                    is_ending(x) && id == #[trigger] field_id(n, prefix, i, x);
                let y = choose|y: Seq<char>|
                    is_ending(y) && id == #[trigger] field_id(n, prefix, j, y);
                lemma_field_id(n, prefix, i, x, j, y);
            }
        }
        lemma_distinct_join(a, b);
        assert forall|id: Seq<char>| #[trigger]
            gsdml::defines(a + b, id) == fields_refer(n, prefix, refs, k, id) by {
            lemma_defines_join(a, b, id);
            if fields_refer(n, prefix, refs, k, id) {
                let j = choose|j: int|
                    0 <= j < k && #[trigger] gsdml::field_ids(n, prefix, refs, j).contains(id);
                if j < i {
                    assert(fields_refer(n, prefix, refs, i, id));
                }
            }
            if gsdml::defines(a, id) {
                let j = choose|j: int|
                    0 <= j < i && #[trigger] gsdml::field_ids(n, prefix, refs, j).contains(id);
                assert(fields_refer(n, prefix, refs, k, id));
            }
        }
    }
}

/// The id of a field's text, with its direction.
proof fn lemma_refers_by_direction(
    n: u16,
    prefix: Seq<char>,
    refs: Seq<FieldRef>,
    k: int,
    id: Seq<char>,
) -> (rest: Seq<char>)
    requires
        0 <= k <= refs.len(),
        fields_refer(n, prefix, refs, k, id),
    ensures
        id == slot_id(n, prefix + rest),
        rest.len() > 0,
        is_digit(rest[0]),
{
    let i = choose|i: int|
        0 <= i < k && #[trigger] gsdml::field_ids(n, prefix, refs, i).contains(id);
    lemma_field_texts(n, prefix, refs, i);
    let x = choose|x: Seq<char>| is_ending(x) && id == #[trigger] field_id(n, prefix, i, x);
    dec_text_reads_back(i);
    let rest = text::dec_text(i) + x;
    assert(rest[0] == text::dec_text(i)[0]);
    rest
}

/// Whether `id` is that of a text of slot `n`.
spec fn of_slot(n: u16, id: Seq<char>) -> bool {
    exists|rest: Seq<char>| id == #[trigger] slot_id(n, rest)
}

/// The two directions and the names of a module share no id.
proof fn lemma_parts_apart(s: config::SubmoduleView, id: Seq<char>)
    ensures
        ({
            let n = s.slot.0;
            let (i, o) = (config::field_refs(s.inputs), config::field_refs(s.outputs));
            let ins = fields_refer(n, "In"@, i, s.inputs.len() as int, id);
            let outs = fields_refer(n, "Out"@, o, s.outputs.len() as int, id);
            let name = id == gsdml::module_id(n, "_Name"@);
            let info = id == gsdml::module_id(n, "_Info"@);
            &&& !(name && info)
            &&& !(ins && outs)
            &&& (name || info) ==> !ins && !outs
            &&& module_refers(s, id) ==> of_slot(n, id)
        }),
{
    let n = s.slot.0;
    let (i, o) = (config::field_refs(s.inputs), config::field_refs(s.outputs));
    let ins = fields_refer(n, "In"@, i, s.inputs.len() as int, id);
    let outs = fields_refer(n, "Out"@, o, s.outputs.len() as int, id);
    lemma_ids(n, "In"@, 0);
    reveal_strlit("Name");
    reveal_strlit("Info");
    reveal_strlit("In");
    reveal_strlit("Out");
    if id == gsdml::module_id(n, "_Name"@) && id == gsdml::module_id(n, "_Info"@) {
        lemma_slot_id(n, "Name"@, n, "Info"@);
        assert("Name"@[0] == "Info"@[0]);
    }
    let a = if ins {
        lemma_refers_by_direction(n, "In"@, i, s.inputs.len() as int, id)
    } else {
        seq!['0']
    };
    let b = if outs {
        lemma_refers_by_direction(n, "Out"@, o, s.outputs.len() as int, id)
    } else {
        seq!['0']
    };
    let (x, y) = ("In"@ + a, "Out"@ + b);
    assert(x[0] == 'I' && x[2] == a[0] && y[0] == 'O');
    if ins {
        if outs {
            lemma_slot_id(n, x, n, y);
        }
        if id == gsdml::module_id(n, "_Name"@) {
            lemma_slot_id(n, x, n, "Name"@);
        }
        if id == gsdml::module_id(n, "_Info"@) {
            lemma_slot_id(n, x, n, "Info"@);
        }
    }
    if outs {
        if id == gsdml::module_id(n, "_Name"@) {
            lemma_slot_id(n, y, n, "Name"@);
        }
        if id == gsdml::module_id(n, "_Info"@) {
            lemma_slot_id(n, y, n, "Info"@);
        }
    }
}

/// The texts of a module: those that it refers to, each once.
proof fn lemma_module_texts(s: config::SubmoduleView)
    ensures
        distinct(gsdml::module_texts(s)),
        forall|id: Seq<char>| #[trigger]
            gsdml::defines(gsdml::module_texts(s), id) == module_refers(s, id),
{
    let n = s.slot.0;
    let (i, o) = (config::field_refs(s.inputs), config::field_refs(s.outputs));
    let names = gsdml::module_names(s);
    let ins = gsdml::texts_of(n, "In"@, i, s.inputs.len() as int);
    let outs = gsdml::texts_of(n, "Out"@, o, s.outputs.len() as int);
    lemma_texts_of(n, "In"@, i, s.inputs.len() as int);
    lemma_texts_of(n, "Out"@, o, s.outputs.len() as int);
    lemma_parts_apart(s, gsdml::module_id(n, "_Name"@));
    assert(names[0].id == gsdml::module_id(n, "_Name"@));
    assert(names[1].id == gsdml::module_id(n, "_Info"@));
    assert forall|id: Seq<char>| #[trigger] gsdml::defines(names, id) implies !gsdml::defines(
        ins,
        id,
    ) by {
        lemma_parts_apart(s, id);
    }
    lemma_distinct_join(names, ins);
    assert forall|id: Seq<char>| #[trigger]
        gsdml::defines(names + ins, id) implies !gsdml::defines(outs, id) by {
        lemma_defines_join(names, ins, id);
        lemma_parts_apart(s, id);
    }
    lemma_distinct_join(names + ins, outs);
    assert forall|id: Seq<char>| #[trigger]
        gsdml::defines(gsdml::module_texts(s), id) == module_refers(s, id) by {
        lemma_defines_join(names, ins, id);
        lemma_defines_join(names + ins, outs, id);
        if id == names[0].id || id == names[1].id {
            assert(gsdml::defines(names, id));
        }
    }
}

/// The texts of the first modules: those that they refer to, each once.
pub proof fn lemma_modules_texts(cfg: config::ConfigView, k: int)
    requires
        cfg.wf(),
        0 <= k <= cfg.submodules.len(),
    ensures
        distinct(gsdml::modules_texts(cfg, k)),
        forall|id: Seq<char>| #[trigger]
            gsdml::defines(gsdml::modules_texts(cfg, k), id) == modules_refer(cfg, k, id),
    decreases k,
{
    if k > 0 {
        let s = cfg.submodules[k - 1];
        let (a, b) = (gsdml::modules_texts(cfg, k - 1), gsdml::module_texts(s));
        lemma_modules_texts(cfg, k - 1);
        lemma_module_texts(s);
        assert forall|id: Seq<char>| #[trigger] gsdml::defines(a, id) implies !gsdml::defines(
            b,
            id,
        ) by {
            let m = choose|m: int| 0 <= m < k - 1 && module_refers(#[trigger] cfg.submodules[m], id);
            let t = cfg.submodules[m];
            lemma_parts_apart(t, id);
            lemma_parts_apart(s, id);
            if gsdml::defines(b, id) {
                let x = choose|x: Seq<char>| id == #[trigger] slot_id(t.slot.0, x);
                let y = choose|y: Seq<char>| id == #[trigger] slot_id(s.slot.0, y);
                lemma_slot_id(t.slot.0, x, s.slot.0, y);
            }
        }
        lemma_distinct_join(a, b);
        assert forall|id: Seq<char>| #[trigger]
            gsdml::defines(a + b, id) == modules_refer(cfg, k, id) by {
            lemma_defines_join(a, b, id);
            if modules_refer(cfg, k, id) {
                let m = choose|m: int| 0 <= m < k && module_refers(#[trigger] cfg.submodules[m], id);
                if m < k - 1 {
                    assert(modules_refer(cfg, k - 1, id));
                }
            }
            if gsdml::defines(a, id) {
                let m = choose|m: int|
                    0 <= m < k - 1 && module_refers(#[trigger] cfg.submodules[m], id);
                assert(modules_refer(cfg, k, id));
            }
        }
    }
}

/// The texts of the device: those that it refers to, each once.
pub proof fn lemma_device_texts(meta: GsdmlMeta)
    ensures
        distinct(gsdml::device_texts(meta)),
        forall|id: Seq<char>| #[trigger]
            gsdml::defines(gsdml::device_texts(meta), id) == device_refers(id),
        forall|id: Seq<char>| #[trigger] device_refers(id) ==> id.len() > 0 && id[0] == 'T',
{
    reveal_strlit("T_InfoText");
    reveal_strlit("T_DAP_Name");
    reveal_strlit("T_DAP_Info");
    reveal_strlit("T_Interface");
    reveal_strlit("T_Port1");
    let texts = gsdml::device_texts(meta);
    let (a, b, c, d, e) = (
        "T_InfoText"@,
        "T_DAP_Name"@,
        "T_DAP_Info"@,
        "T_Interface"@,
        "T_Port1"@,
    );
    assert(a[3] == 'n' && b[3] == 'A' && c[3] == 'A' && d[3] == 'n' && e[3] == 'o');
    assert(a.len() == 10 && d.len() == 11 && b[6] == 'N' && c[6] == 'I');
    assert(texts[0].id == a && texts[1].id == b && texts[2].id == c && texts[3].id == d
        && texts[4].id == e);
    assert forall|id: Seq<char>| #[trigger] gsdml::defines(texts, id) == device_refers(id) by {
        if device_refers(id) {
            assert(texts[0].id == id || texts[1].id == id || texts[2].id == id || texts[3].id == id
                || texts[4].id == id);
        }
    }
}

/// The text table of a document defines exactly the texts that the document refers to, and
/// each of them once.
pub proof fn the_text_table_is_exact(cfg: config::ConfigView, meta: GsdmlMeta)
    requires
        cfg.wf(),
    ensures
        distinct(gsdml::document_texts(cfg, meta)),
        forall|id: Seq<char>| #[trigger]
            gsdml::defines(gsdml::document_texts(cfg, meta), id) == (device_refers(id)
                || modules_refer(cfg, cfg.submodules.len() as int, id)),
{
    let n = cfg.submodules.len() as int;
    let (a, b) = (gsdml::device_texts(meta), gsdml::modules_texts(cfg, n));
    lemma_device_texts(meta);
    lemma_modules_texts(cfg, n);
    assert forall|id: Seq<char>| #[trigger] gsdml::defines(a, id) implies !gsdml::defines(
        b,
        id,
    ) by {
        assert(device_refers(id));
        if gsdml::defines(b, id) {
            let m = choose|m: int| 0 <= m < n && module_refers(#[trigger] cfg.submodules[m], id);
            let s = cfg.submodules[m];
            lemma_parts_apart(s, id);
            let x = choose|x: Seq<char>| id == #[trigger] slot_id(s.slot.0, x);
            reveal_strlit("M");
            assert(slot_id(s.slot.0, x)[0] == 'M');
        }
    }
    lemma_distinct_join(a, b);
    assert forall|id: Seq<char>| #[trigger]
        gsdml::defines(a + b, id) == (device_refers(id) || modules_refer(cfg, n, id)) by {
        lemma_defines_join(a, b, id);
    }
}

} // verus!
