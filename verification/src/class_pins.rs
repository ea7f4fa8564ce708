//! Stable class ids of the library classes, keyed by name.
//!
//! A library class has the same id in every program, whatever the order in
//! which classes are registered. New rows go to the end of the table, at the
//! next free id; the rows that are there never change.

use vstd::prelude::*;

use crate::text::same_text;

verus! {

/// Name and id of every library class.
pub const CLASS_PINS: [(&'static str, u32); 104] = [
    ("<condition>", 1024),
    ("<warning>", 1025),
    ("<serious-condition>", 1026),
    ("<error>", 1027),
    ("<simple-condition>", 1028),
    ("<simple-error>", 1029),
    ("<simple-warning>", 1030),
    ("<no-applicable-methods-error>", 1031),
    ("<no-next-method-error>", 1032),
    ("<simple-restart>", 1033),
    ("<exit-procedure>", 1034),
    ("<collection>", 1035),
    ("<mutable-collection>", 1036),
    ("<sequence>", 1037),
    ("<mutable-sequence>", 1038),
    ("<explicit-key-collection>", 1039),
    ("<stretchy-collection>", 1040),
    ("<iteration-state>", 1041),
    ("<range>", 1042),
    ("<stretchy-vector>", 1043),
    ("<out-of-range-error>", 1044),
    ("<table>", 1045),
    ("<not-hashable-error>", 1046),
    ("<c-struct>", 1047),
    ("<point>", 1048),
    ("<rect>", 1049),
    ("<size>", 1050),
    ("<filetime>", 1051),
    ("<systemtime>", 1052),
    ("<msg>", 1053),
    ("<wndclassexw>", 1054),
    ("<paintstruct>", 1055),
    ("<function>", 1056),
    ("<wrong-number-of-arguments-error>", 1057),
    ("<cell>", 1058),
    ("<environment>", 1059),
    ("<c-bool>", 1060),
    ("<c-int>", 1061),
    ("<c-uint>", 1062),
    ("<c-short>", 1063),
    ("<c-ushort>", 1064),
    ("<c-long>", 1065),
    ("<c-ulong>", 1066),
    ("<c-longlong>", 1067),
    ("<c-ulonglong>", 1068),
    ("<c-dword>", 1069),
    ("<c-word>", 1070),
    ("<c-byte>", 1071),
    ("<c-pointer>", 1072),
    ("<c-handle>", 1073),
    ("<c-string>", 1074),
    ("<c-wide-string>", 1075),
    ("<c-float>", 1076),
    ("<c-double>", 1077),
    ("<c-ffi-error>", 1078),
    ("<array>", 1079),
    ("<vector>", 1080),
    ("<simple-vector>", 1081),
    ("<byte-vector>", 1082),
    ("<bit-vector>", 1083),
    ("<synchronization>", 1084),
    ("<lock>", 1085),
    ("<simple-lock>", 1086),
    ("<recursive-lock>", 1087),
    ("<semaphore>", 1088),
    ("<notification>", 1089),
    ("<thread>", 1090),
    ("<generic-function>", 1091),
    ("<float-vector>", 1092),
    ("<type-error>", 1093),
    ("<type>", 1094),
    ("<class>", 1095),
    ("<singleton>", 1096),
    ("<number>", 1097),
    ("<complex>", 1098),
    ("<real>", 1099),
    ("<rational>", 1100),
    ("<float>", 1101),
    ("<byte>", 1102),
    ("<bit>", 1103),
    ("<extended-float>", 1104),
    ("<restart>", 1105),
    ("<arithmetic-error>", 1106),
    ("<arithmetic-overflow-error>", 1107),
    ("<sealed-object-error>", 1108),
    ("<stream-error>", 1109),
    ("<end-of-stream-error>", 1110),
    ("<incomplete-read-error>", 1111),
    ("<incomplete-write-error>", 1112),
    ("<test-input-stream>", 1113),
    ("<test-output-stream>", 1114),
    ("<list>", 1115),
    ("<deque>", 1116),
    ("<object-deque>", 1117),
    ("<set>", 1118),
    ("<mutable-explicit-key-collection>", 1119),
    ("<object-table>", 1120),
    ("<string-table>", 1121),
    ("<stretchy-sequence>", 1122),
    ("<stretchy-object-vector>", 1123),
    ("<single-float-vector>", 1124),
    ("<double-float-vector>", 1125),
    ("<stream>", 1126),
    ("<string-stream>", 1127),
];

/// First id above every pinned class id.
pub const PIN_CEILING: u32 = 1128;

/// First pinned class id.
pub const PIN_FLOOR: u32 = 1024;

/// The id pinned for `name`, looking at rows `i` and up.
pub open spec fn pinned_from(name: Seq<char>, i: int) -> Option<u32>
    decreases 104 - i,
{
    if i < 0 || i >= 104 {
        None
    } else if CLASS_PINS@[i].0@ == name {
        Some(CLASS_PINS@[i].1)
    } else {
        pinned_from(name, i + 1)
    }
}

/// The id pinned for `name`, if the class is a library class.
pub open spec fn pinned(name: Seq<char>) -> Option<u32> {
    pinned_from(name, 0)
}

/// Row `i` carries the `i`-th id of the pinned band.
proof fn rows_are_consecutive(i: int)
    requires
        0 <= i < 104,
    ensures
        CLASS_PINS@[i].1 == PIN_FLOOR + i,
{
}

proof fn pinned_row(name: Seq<char>, from: int) -> (i: int)
    requires
        0 <= from,
        pinned_from(name, from) is Some,
    ensures
        from <= i < 104,
        CLASS_PINS@[i].0@ == name,
        pinned_from(name, from) == Some((PIN_FLOOR + i) as u32),
    decreases 104 - from,
{
    if from < 104 && CLASS_PINS@[from].0@ == name {
        rows_are_consecutive(from);
        from
    } else {
        pinned_row(name, from + 1)
    }
}

/// Every pinned id lies in the pinned band, below every id handed out to the
/// classes of a program.
pub proof fn pinned_in_band(name: Seq<char>)
    requires
        pinned(name) is Some,
    ensures
        PIN_FLOOR <= pinned(name)->0 < PIN_CEILING,
{
    let i = pinned_row(name, 0);
}

/// No two library classes share an id.
pub proof fn pinned_injective(a: Seq<char>, b: Seq<char>)
    requires
        pinned(a) is Some,
        pinned(a) == pinned(b),
    ensures
        a == b,
{
    let i = pinned_row(a, 0);
    let j = pinned_row(b, 0);
}

/// The stable id of a library class, looked up by name.
pub fn pinned_id(name: &str) -> (id: Option<u32>)
    ensures
        id == pinned(name@),
{
    let mut i: usize = 0;
    while i < 104
        invariant
            i <= 104,
            pinned(name@) == pinned_from(name@, i as int),
        decreases 104 - i,
    {
        if same_text(CLASS_PINS[i].0, name) {
            return Some(CLASS_PINS[i].1);
        }
        i += 1;
    }
    None
}

} // verus!
