//! Every id of the pinned band belongs to a library class.
//!
//! The rows of the table have different names. To see it, a name is told by four
//! marks: its length, its second and fourth characters and the third from its
//! end. No two rows share all four.

use vstd::prelude::*;

use crate::class_pins::{pinned, pinned_from, CLASS_PINS, PIN_CEILING, PIN_FLOOR};
use crate::classes::SEED_NAMES;

verus! {

/// The length of a name, and three of its characters.
spec fn marks(name: Seq<char>) -> (nat, char, char, char) {
    (name.len(), name[1], name[3], name[name.len() - 3])
}

/// The row with these marks.
spec fn row_of(m: (nat, char, char, char)) -> int {
    if m == (11nat, 'c', 'n', 'o') {
        0
    } else if m == (9nat, 'w', 'r', 'n') {
        1
    } else if m == (19nat, 's', 'r', 'o') {
        2
    } else if m == (7nat, 'e', 'r', 'o') {
        3
    } else if m == (18nat, 's', 'm', 'o') {
        4
    } else if m == (14nat, 's', 'm', 'o') {
        5
    } else if m == (16nat, 's', 'm', 'n') {
        6
    } else if m == (29nat, 'n', '-', 'o') {
        7
    } else if m == (22nat, 'n', '-', 'o') {
        8
    } else if m == (16nat, 's', 'm', 'r') {
        9
    } else if m == (16nat, 'e', 'i', 'r') {
        10
    } else if m == (12nat, 'c', 'l', 'o') {
        11
    } else if m == (20nat, 'm', 't', 'o') {
        12
    } else if m == (10nat, 's', 'q', 'c') {
        13
    } else if m == (18nat, 'm', 't', 'c') {
        14
    } else if m == (25nat, 'e', 'p', 'o') {
        15
    } else if m == (21nat, 's', 'r', 'o') {
        16
    } else if m == (17nat, 'i', 'e', 't') {
        17
    } else if m == (7nat, 'r', 'n', 'g') {
        18
    } else if m == (17nat, 's', 'r', 'o') {
        19
    } else if m == (20nat, 'o', 't', 'o') {
        20
    } else if m == (7nat, 't', 'b', 'l') {
        21
    } else if m == (20nat, 'n', 't', 'o') {
        22
    } else if m == (10nat, 'c', 's', 'c') {
        23
    } else if m == (7nat, 'p', 'i', 'n') {
        24
    } else if m == (6nat, 'r', 'c', 'c') {
        25
    } else if m == (6nat, 's', 'z', 'z') {
        26
    } else if m == (10nat, 'f', 'l', 'm') {
        27
    } else if m == (12nat, 's', 's', 'm') {
        28
    } else if m == (5nat, 'm', 'g', 's') {
        29
    } else if m == (13nat, 'w', 'd', 'x') {
        30
    } else if m == (13nat, 'p', 'i', 'c') {
        31
    } else if m == (10nat, 'f', 'n', 'o') {
        32
    } else if m == (33nat, 'w', 'o', 'o') {
        33
    } else if m == (6nat, 'c', 'l', 'l') {
        34
    } else if m == (13nat, 'e', 'v', 'n') {
        35
    } else if m == (8nat, 'c', 'b', 'o') {
        36
    } else if m == (7nat, 'c', 'i', 'n') {
        37
    } else if m == (8nat, 'c', 'u', 'n') {
        38
    } else if m == (9nat, 'c', 's', 'r') {
        39
    } else if m == (10nat, 'c', 'u', 'r') {
        40
    } else if m == (8nat, 'c', 'l', 'n') {
        41
    } else if m == (9nat, 'c', 'u', 'n') {
        42
    } else if m == (12nat, 'c', 'l', 'n') {
        43
    } else if m == (13nat, 'c', 'u', 'n') {
        44
    } else if m == (9nat, 'c', 'd', 'r') {
        45
    } else if m == (8nat, 'c', 'w', 'r') {
        46
    } else if m == (8nat, 'c', 'b', 't') {
        47
    } else if m == (11nat, 'c', 'p', 'e') {
        48
    } else if m == (10nat, 'c', 'h', 'l') {
        49
    } else if m == (10nat, 'c', 's', 'n') {
        50
    } else if m == (15nat, 'c', 'w', 'n') {
        51
    } else if m == (9nat, 'c', 'f', 'a') {
        52
    } else if m == (10nat, 'c', 'd', 'l') {
        53
    } else if m == (13nat, 'c', 'f', 'o') {
        54
    } else if m == (7nat, 'a', 'r', 'a') {
        55
    } else if m == (8nat, 'v', 'c', 'o') {
        56
    } else if m == (15nat, 's', 'm', 'o') {
        57
    } else if m == (13nat, 'b', 't', 'o') {
        58
    } else if m == (12nat, 'b', 't', 'o') {
        59
    } else if m == (17nat, 's', 'n', 'o') {
        60
    } else if m == (6nat, 'l', 'c', 'c') {
        61
    } else if m == (13nat, 's', 'm', 'c') {
        62
    } else if m == (16nat, 'r', 'c', 'c') {
        63
    } else if m == (11nat, 's', 'm', 'r') {
        64
    } else if m == (14nat, 'n', 't', 'o') {
        65
    } else if m == (8nat, 't', 'r', 'a') {
        66
    } else if m == (18nat, 'g', 'n', 'o') {
        67
    } else if m == (14nat, 'f', 'o', 'o') {
        68
    } else if m == (12nat, 't', 'p', 'o') {
        69
    } else if m == (6nat, 't', 'p', 'p') {
        70
    } else if m == (7nat, 'c', 'a', 's') {
        71
    } else if m == (11nat, 's', 'n', 'o') {
        72
    } else if m == (8nat, 'n', 'm', 'e') {
        73
    } else if m == (9nat, 'c', 'm', 'e') {
        74
    } else if m == (6nat, 'r', 'a', 'a') {
        75
    } else if m == (10nat, 'r', 't', 'a') {
        76
    } else if m == (7nat, 'f', 'o', 'a') {
        77
    } else if m == (6nat, 'b', 't', 't') {
        78
    } else if m == (5nat, 'b', 't', 'i') {
        79
    } else if m == (16nat, 'e', 't', 'a') {
        80
    } else if m == (9nat, 'r', 's', 'r') {
        81
    } else if m == (18nat, 'a', 'i', 'o') {
        82
    } else if m == (27nat, 'a', 'i', 'o') {
        83
    } else if m == (21nat, 's', 'a', 'o') {
        84
    } else if m == (14nat, 's', 'r', 'o') {
        85
    } else if m == (21nat, 'e', 'd', 'o') {
        86
    } else if m == (23nat, 'i', 'c', 'o') {
        87
    } else if m == (24nat, 'i', 'c', 'o') {
        88
    } else if m == (19nat, 't', 's', 'a') {
        89
    } else if m == (20nat, 't', 's', 'a') {
        90
    } else if m == (6nat, 'l', 's', 's') {
        91
    } else if m == (7nat, 'd', 'q', 'u') {
        92
    } else if m == (14nat, 'o', 'j', 'u') {
        93
    } else if m == (5nat, 's', 't', 'e') {
        94
    } else if m == (33nat, 'm', 't', 'o') {
        95
    } else if m == (14nat, 'o', 'j', 'l') {
        96
    } else if m == (14nat, 's', 'r', 'l') {
        97
    } else if m == (19nat, 's', 'r', 'c') {
        98
    } else if m == (24nat, 's', 'r', 'o') {
        99
    } else if m == (21nat, 's', 'n', 'o') {
        100
    } else if m == (21nat, 'd', 'u', 'o') {
        101
    } else if m == (8nat, 's', 'r', 'a') {
        102
    } else if m == (15nat, 's', 'r', 'a') {
        103
    } else {
        -1
    }
}

proof fn first_rows(i: int)
    requires
        0 <= i < 26,
    ensures
        row_of(marks(CLASS_PINS@[i].0@)) == i,
{
    if i == 0 {
        reveal_strlit("<condition>");
        assert(CLASS_PINS@[i].0@ == "<condition>"@);
    } else if i == 1 {
        reveal_strlit("<warning>");
        assert(CLASS_PINS@[i].0@ == "<warning>"@);
    } else if i == 2 {
        reveal_strlit("<serious-condition>");
        assert(CLASS_PINS@[i].0@ == "<serious-condition>"@);
    } else if i == 3 {
        reveal_strlit("<error>");
        assert(CLASS_PINS@[i].0@ == "<error>"@);
    } else if i == 4 {
        reveal_strlit("<simple-condition>");
        assert(CLASS_PINS@[i].0@ == "<simple-condition>"@);
    } else if i == 5 {
        reveal_strlit("<simple-error>");
        assert(CLASS_PINS@[i].0@ == "<simple-error>"@);
    } else if i == 6 {
        reveal_strlit("<simple-warning>");
        assert(CLASS_PINS@[i].0@ == "<simple-warning>"@);
    } else if i == 7 {
        reveal_strlit("<no-applicable-methods-error>");
        assert(CLASS_PINS@[i].0@ == "<no-applicable-methods-error>"@);
    } else if i == 8 {
        reveal_strlit("<no-next-method-error>");
        assert(CLASS_PINS@[i].0@ == "<no-next-method-error>"@);
    } else if i == 9 {
        reveal_strlit("<simple-restart>");
        assert(CLASS_PINS@[i].0@ == "<simple-restart>"@);
    } else if i == 10 {
        reveal_strlit("<exit-procedure>");
        assert(CLASS_PINS@[i].0@ == "<exit-procedure>"@);
    } else if i == 11 {
        reveal_strlit("<collection>");
        assert(CLASS_PINS@[i].0@ == "<collection>"@);
    } else if i == 12 {
        reveal_strlit("<mutable-collection>");
        assert(CLASS_PINS@[i].0@ == "<mutable-collection>"@);
    } else if i == 13 {
        reveal_strlit("<sequence>");
        assert(CLASS_PINS@[i].0@ == "<sequence>"@);
    } else if i == 14 {
        reveal_strlit("<mutable-sequence>");
        assert(CLASS_PINS@[i].0@ == "<mutable-sequence>"@);
    } else if i == 15 {
        reveal_strlit("<explicit-key-collection>");
        assert(CLASS_PINS@[i].0@ == "<explicit-key-collection>"@);
    } else if i == 16 {
        reveal_strlit("<stretchy-collection>");
        assert(CLASS_PINS@[i].0@ == "<stretchy-collection>"@);
    } else if i == 17 {
        reveal_strlit("<iteration-state>");
        assert(CLASS_PINS@[i].0@ == "<iteration-state>"@);
    } else if i == 18 {
        reveal_strlit("<range>");
        assert(CLASS_PINS@[i].0@ == "<range>"@);
    } else if i == 19 {
        reveal_strlit("<stretchy-vector>");
        assert(CLASS_PINS@[i].0@ == "<stretchy-vector>"@);
    } else if i == 20 {
        reveal_strlit("<out-of-range-error>");
        assert(CLASS_PINS@[i].0@ == "<out-of-range-error>"@);
    } else if i == 21 {
        reveal_strlit("<table>");
        assert(CLASS_PINS@[i].0@ == "<table>"@);
    } else if i == 22 {
        reveal_strlit("<not-hashable-error>");
        assert(CLASS_PINS@[i].0@ == "<not-hashable-error>"@);
    } else if i == 23 {
        reveal_strlit("<c-struct>");
        assert(CLASS_PINS@[i].0@ == "<c-struct>"@);
    } else if i == 24 {
        reveal_strlit("<point>");
        assert(CLASS_PINS@[i].0@ == "<point>"@);
    } else if i == 25 {
        reveal_strlit("<rect>");
        assert(CLASS_PINS@[i].0@ == "<rect>"@);
    }
}

proof fn second_rows(i: int)
    requires
        26 <= i < 52,
    ensures
        row_of(marks(CLASS_PINS@[i].0@)) == i,
{
    if i == 26 {
        reveal_strlit("<size>");
        assert(CLASS_PINS@[i].0@ == "<size>"@);
    } else if i == 27 {
        reveal_strlit("<filetime>");
        assert(CLASS_PINS@[i].0@ == "<filetime>"@);
    } else if i == 28 {
        reveal_strlit("<systemtime>");
        assert(CLASS_PINS@[i].0@ == "<systemtime>"@);
    } else if i == 29 {
        reveal_strlit("<msg>");
        assert(CLASS_PINS@[i].0@ == "<msg>"@);
    } else if i == 30 {
        reveal_strlit("<wndclassexw>");
        assert(CLASS_PINS@[i].0@ == "<wndclassexw>"@);
    } else if i == 31 {
        reveal_strlit("<paintstruct>");
        assert(CLASS_PINS@[i].0@ == "<paintstruct>"@);
    } else if i == 32 {
        reveal_strlit("<function>");
        assert(CLASS_PINS@[i].0@ == "<function>"@);
    } else if i == 33 {
        reveal_strlit("<wrong-number-of-arguments-error>");
        assert(CLASS_PINS@[i].0@ == "<wrong-number-of-arguments-error>"@);
    } else if i == 34 {
        reveal_strlit("<cell>");
        assert(CLASS_PINS@[i].0@ == "<cell>"@);
    } else if i == 35 {
        reveal_strlit("<environment>");
        assert(CLASS_PINS@[i].0@ == "<environment>"@);
    } else if i == 36 {
        reveal_strlit("<c-bool>");
        assert(CLASS_PINS@[i].0@ == "<c-bool>"@);
    } else if i == 37 {
        reveal_strlit("<c-int>");
        assert(CLASS_PINS@[i].0@ == "<c-int>"@);
    } else if i == 38 {
        reveal_strlit("<c-uint>");
        assert(CLASS_PINS@[i].0@ == "<c-uint>"@);
    } else if i == 39 {
        reveal_strlit("<c-short>");
        assert(CLASS_PINS@[i].0@ == "<c-short>"@);
    } else if i == 40 {
        reveal_strlit("<c-ushort>");
        assert(CLASS_PINS@[i].0@ == "<c-ushort>"@);
    } else if i == 41 {
        reveal_strlit("<c-long>");
        assert(CLASS_PINS@[i].0@ == "<c-long>"@);
    } else if i == 42 {
        reveal_strlit("<c-ulong>");
        assert(CLASS_PINS@[i].0@ == "<c-ulong>"@);
    } else if i == 43 {
        reveal_strlit("<c-longlong>");
        assert(CLASS_PINS@[i].0@ == "<c-longlong>"@);
    } else if i == 44 {
        reveal_strlit("<c-ulonglong>");
        assert(CLASS_PINS@[i].0@ == "<c-ulonglong>"@);
    } else if i == 45 {
        reveal_strlit("<c-dword>");
        assert(CLASS_PINS@[i].0@ == "<c-dword>"@);
    } else if i == 46 {
        reveal_strlit("<c-word>");
        assert(CLASS_PINS@[i].0@ == "<c-word>"@);
    } else if i == 47 {
        reveal_strlit("<c-byte>");
        assert(CLASS_PINS@[i].0@ == "<c-byte>"@);
    } else if i == 48 {
        reveal_strlit("<c-pointer>");
        assert(CLASS_PINS@[i].0@ == "<c-pointer>"@);
    } else if i == 49 {
        reveal_strlit("<c-handle>");
        assert(CLASS_PINS@[i].0@ == "<c-handle>"@);
    } else if i == 50 {
        reveal_strlit("<c-string>");
        assert(CLASS_PINS@[i].0@ == "<c-string>"@);
    } else if i == 51 {
        reveal_strlit("<c-wide-string>");
        assert(CLASS_PINS@[i].0@ == "<c-wide-string>"@);
    }
}

proof fn third_rows(i: int)
    requires
        52 <= i < 78,
    ensures
        row_of(marks(CLASS_PINS@[i].0@)) == i,
{
    if i == 52 {
        reveal_strlit("<c-float>");
        assert(CLASS_PINS@[i].0@ == "<c-float>"@);
    } else if i == 53 {
        reveal_strlit("<c-double>");
        assert(CLASS_PINS@[i].0@ == "<c-double>"@);
    } else if i == 54 {
        reveal_strlit("<c-ffi-error>");
        assert(CLASS_PINS@[i].0@ == "<c-ffi-error>"@);
    } else if i == 55 {
        reveal_strlit("<array>");
        assert(CLASS_PINS@[i].0@ == "<array>"@);
    } else if i == 56 {
        reveal_strlit("<vector>");
        assert(CLASS_PINS@[i].0@ == "<vector>"@);
    } else if i == 57 {
        reveal_strlit("<simple-vector>");
        assert(CLASS_PINS@[i].0@ == "<simple-vector>"@);
    } else if i == 58 {
        reveal_strlit("<byte-vector>");
        assert(CLASS_PINS@[i].0@ == "<byte-vector>"@);
    } else if i == 59 {
        reveal_strlit("<bit-vector>");
        assert(CLASS_PINS@[i].0@ == "<bit-vector>"@);
    } else if i == 60 {
        reveal_strlit("<synchronization>");
        assert(CLASS_PINS@[i].0@ == "<synchronization>"@);
    } else if i == 61 {
        reveal_strlit("<lock>");
        assert(CLASS_PINS@[i].0@ == "<lock>"@);
    } else if i == 62 {
        reveal_strlit("<simple-lock>");
        assert(CLASS_PINS@[i].0@ == "<simple-lock>"@);
    } else if i == 63 {
        reveal_strlit("<recursive-lock>");
        assert(CLASS_PINS@[i].0@ == "<recursive-lock>"@);
    } else if i == 64 {
        reveal_strlit("<semaphore>");
        assert(CLASS_PINS@[i].0@ == "<semaphore>"@);
    } else if i == 65 {
        reveal_strlit("<notification>");
        assert(CLASS_PINS@[i].0@ == "<notification>"@);
    } else if i == 66 {
        reveal_strlit("<thread>");
        assert(CLASS_PINS@[i].0@ == "<thread>"@);
    } else if i == 67 {
        reveal_strlit("<generic-function>");
        assert(CLASS_PINS@[i].0@ == "<generic-function>"@);
    } else if i == 68 {
        reveal_strlit("<float-vector>");
        assert(CLASS_PINS@[i].0@ == "<float-vector>"@);
    } else if i == 69 {
        reveal_strlit("<type-error>");
        assert(CLASS_PINS@[i].0@ == "<type-error>"@);
    } else if i == 70 {
        reveal_strlit("<type>");
        assert(CLASS_PINS@[i].0@ == "<type>"@);
    } else if i == 71 {
        reveal_strlit("<class>");
        assert(CLASS_PINS@[i].0@ == "<class>"@);
    } else if i == 72 {
        reveal_strlit("<singleton>");
        assert(CLASS_PINS@[i].0@ == "<singleton>"@);
    } else if i == 73 {
        reveal_strlit("<number>");
        assert(CLASS_PINS@[i].0@ == "<number>"@);
    } else if i == 74 {
        reveal_strlit("<complex>");
        assert(CLASS_PINS@[i].0@ == "<complex>"@);
    } else if i == 75 {
        reveal_strlit("<real>");
        assert(CLASS_PINS@[i].0@ == "<real>"@);
    } else if i == 76 {
        reveal_strlit("<rational>");
        assert(CLASS_PINS@[i].0@ == "<rational>"@);
    } else if i == 77 {
        reveal_strlit("<float>");
        assert(CLASS_PINS@[i].0@ == "<float>"@);
    }
}

proof fn fourth_rows(i: int)
    requires
        78 <= i < 104,
    ensures
        row_of(marks(CLASS_PINS@[i].0@)) == i,
{
    if i == 78 {
        reveal_strlit("<byte>");
        assert(CLASS_PINS@[i].0@ == "<byte>"@);
    } else if i == 79 {
        reveal_strlit("<bit>");
        assert(CLASS_PINS@[i].0@ == "<bit>"@);
    } else if i == 80 {
        reveal_strlit("<extended-float>");
        assert(CLASS_PINS@[i].0@ == "<extended-float>"@);
    } else if i == 81 {
        reveal_strlit("<restart>");
        assert(CLASS_PINS@[i].0@ == "<restart>"@);
    } else if i == 82 {
        reveal_strlit("<arithmetic-error>");
        assert(CLASS_PINS@[i].0@ == "<arithmetic-error>"@);
    } else if i == 83 {
        reveal_strlit("<arithmetic-overflow-error>");
        assert(CLASS_PINS@[i].0@ == "<arithmetic-overflow-error>"@);
    } else if i == 84 {
        reveal_strlit("<sealed-object-error>");
        assert(CLASS_PINS@[i].0@ == "<sealed-object-error>"@);
    } else if i == 85 {
        reveal_strlit("<stream-error>");
        assert(CLASS_PINS@[i].0@ == "<stream-error>"@);
    } else if i == 86 {
        reveal_strlit("<end-of-stream-error>");
        assert(CLASS_PINS@[i].0@ == "<end-of-stream-error>"@);
    } else if i == 87 {
        reveal_strlit("<incomplete-read-error>");
        assert(CLASS_PINS@[i].0@ == "<incomplete-read-error>"@);
    } else if i == 88 {
        reveal_strlit("<incomplete-write-error>");
        assert(CLASS_PINS@[i].0@ == "<incomplete-write-error>"@);
    } else if i == 89 {
        reveal_strlit("<test-input-stream>");
        assert(CLASS_PINS@[i].0@ == "<test-input-stream>"@);
    } else if i == 90 {
        reveal_strlit("<test-output-stream>");
        assert(CLASS_PINS@[i].0@ == "<test-output-stream>"@);
    } else if i == 91 {
        reveal_strlit("<list>");
        assert(CLASS_PINS@[i].0@ == "<list>"@);
    } else if i == 92 {
        reveal_strlit("<deque>");
        assert(CLASS_PINS@[i].0@ == "<deque>"@);
    } else if i == 93 {
        reveal_strlit("<object-deque>");
        assert(CLASS_PINS@[i].0@ == "<object-deque>"@);
    } else if i == 94 {
        reveal_strlit("<set>");
        assert(CLASS_PINS@[i].0@ == "<set>"@);
    } else if i == 95 {
        reveal_strlit("<mutable-explicit-key-collection>");
        assert(CLASS_PINS@[i].0@ == "<mutable-explicit-key-collection>"@);
    } else if i == 96 {
        reveal_strlit("<object-table>");
        assert(CLASS_PINS@[i].0@ == "<object-table>"@);
    } else if i == 97 {
        reveal_strlit("<string-table>");
        assert(CLASS_PINS@[i].0@ == "<string-table>"@);
    } else if i == 98 {
        reveal_strlit("<stretchy-sequence>");
        assert(CLASS_PINS@[i].0@ == "<stretchy-sequence>"@);
    } else if i == 99 {
        reveal_strlit("<stretchy-object-vector>");
        assert(CLASS_PINS@[i].0@ == "<stretchy-object-vector>"@);
    } else if i == 100 {
        reveal_strlit("<single-float-vector>");
        assert(CLASS_PINS@[i].0@ == "<single-float-vector>"@);
    } else if i == 101 {
        reveal_strlit("<double-float-vector>");
        assert(CLASS_PINS@[i].0@ == "<double-float-vector>"@);
    } else if i == 102 {
        reveal_strlit("<stream>");
        assert(CLASS_PINS@[i].0@ == "<stream>"@);
    } else if i == 103 {
        reveal_strlit("<string-stream>");
        assert(CLASS_PINS@[i].0@ == "<string-stream>"@);
    }
}

/// The marks of a row tell the row.
proof fn marks_tell_row(i: int)
    requires
        0 <= i < 104,
    ensures
        row_of(marks(CLASS_PINS@[i].0@)) == i,
{
    if i < 26 {
        first_rows(i);
    } else if i < 52 {
        second_rows(i);
    } else if i < 78 {
        third_rows(i);
    } else {
        fourth_rows(i);
    }
}

/// A search for the name of a row finds that row.
proof fn search_finds_row(i: int, from: int)
    requires
        0 <= from <= i < 104,
    ensures
        pinned_from(CLASS_PINS@[i].0@, from) == Some(CLASS_PINS@[i].1),
    decreases i - from,
{
    if from < i {
        marks_tell_row(i);
        marks_tell_row(from);
        search_finds_row(i, from + 1);
    }
}

/// The class in a row of the table is pinned to the id in that row, which is the
/// next one for each row.
pub proof fn row_is_pinned(i: int)
    requires
        0 <= i < 104,
    ensures
        pinned(CLASS_PINS@[i].0@) == Some(CLASS_PINS@[i].1),
        CLASS_PINS@[i].1 == PIN_FLOOR + i,
{
    search_finds_row(i, 0);
}

/// Every id of the pinned band is the id of some library class.
pub proof fn every_pinned_id_is_taken(id: u32) -> (name: Seq<char>)
    requires
        PIN_FLOOR <= id < PIN_CEILING,
    ensures
        pinned(name) == Some(id),
{
    row_is_pinned(id - PIN_FLOOR);
    CLASS_PINS@[id - PIN_FLOOR].0@
}

/// A name has a pinned id exactly if it stands in the table.
pub proof fn pinned_names_are_listed(name: Seq<char>, from: int)
    requires
        0 <= from <= 104,
    ensures
        pinned_from(name, from) is Some <==> exists|i: int|
            from <= i < 104 && (#[trigger] CLASS_PINS@[i]).0@ == name,
    decreases 104 - from,
{
    if from < 104 && CLASS_PINS@[from].0@ != name {
        pinned_names_are_listed(name, from + 1);
    }
}

/// The marks of a seed class are those of no row.
proof fn seed_marks_are_free(i: int)
    requires
        0 <= i < 12,
    ensures
        row_of(marks(SEED_NAMES@[i]@)) == -1,
{
    let name = SEED_NAMES@[i]@;
    if i == 0 {
        reveal_strlit("<object>");
        assert(name == "<object>"@);
    } else if i == 1 {
        reveal_strlit("<integer>");
        assert(name == "<integer>"@);
    } else if i == 2 {
        reveal_strlit("<single-float>");
        assert(name == "<single-float>"@);
    } else if i == 3 {
        reveal_strlit("<double-float>");
        assert(name == "<double-float>"@);
    } else if i == 4 {
        reveal_strlit("<boolean>");
        assert(name == "<boolean>"@);
    } else if i == 5 {
        reveal_strlit("<character>");
        assert(name == "<character>"@);
    } else if i == 6 {
        reveal_strlit("<symbol>");
        assert(name == "<symbol>"@);
    } else if i == 7 {
        reveal_strlit("<string>");
        assert(name == "<string>"@);
    } else if i == 8 {
        reveal_strlit("<byte-string>");
        assert(name == "<byte-string>"@);
    } else if i == 9 {
        reveal_strlit("<simple-object-vector>");
        assert(name == "<simple-object-vector>"@);
    } else if i == 10 {
        reveal_strlit("<empty-list>");
        assert(name == "<empty-list>"@);
    } else if i == 11 {
        reveal_strlit("<pair>");
        assert(name == "<pair>"@);
    }
}

/// No seed class has a pinned id: the seed classes have ids of their own.
pub proof fn seeds_are_not_pinned(i: int)
    requires
        0 <= i < 12,
    ensures
        pinned(SEED_NAMES@[i]@) is None,
{
    let name = SEED_NAMES@[i]@;
    seed_marks_are_free(i);
    pinned_names_are_listed(name, 0);
    if pinned(name) is Some {
        let j = choose|j: int| 0 <= j < 104 && (#[trigger] CLASS_PINS@[j]).0@ == name;
        marks_tell_row(j);
    }
}

} // verus!
