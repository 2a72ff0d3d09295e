//! The built-in gauge tables: pounds per square foot by gauge or size key,
//! each value held as the bits of its IEEE-754 double.
use vstd::prelude::*;

use crate::gauges::{rows_sorted, GaugeTable, GaugeTables};

verus! {

/// Rows of the HR/HRPO/CR table, as listed (psf 9.375 to 122.52).
pub open spec fn hr_hrpo_cr_rows() -> Seq<(Seq<char>, u64)> {
    seq![
        ("4"@, 0x4022c00000000000),
        ("5"@, 0x4021800000000000),
        ("7"@, 0x401e000000000000),
        ("8"@, 0x401b800000000000),
        ("9"@, 0x4019000000000000),
        ("10"@, 0x4016800000000000),
        ("11"@, 0x4014000000000000),
        ("12"@, 0x4011800000000000),
        ("13"@, 0x400e000000000000),
        ("14"@, 0x4009000000000000),
        ("15"@, 0x4006800000000000),
        ("16"@, 0x4004000000000000),
        ("17"@, 0x4002000000000000),
        ("18"@, 0x4000000000000000),
        ("19"@, 0x3ffc000000000000),
        ("20"@, 0x3ff8000000000000),
        ("21"@, 0x3ff6000000000000),
        ("22"@, 0x3ff4000000000000),
        ("23"@, 0x3ff2000000000000),
        ("24"@, 0x3ff0000000000000),
        ("25"@, 0x3fec000000000000),
        ("26"@, 0x3fe8000000000000),
        ("27"@, 0x3fe6000000000000),
        ("28"@, 0x3fe4000000000000),
        ("29"@, 0x3fe2000000000000),
        ("30"@, 0x3fe0000000000000),
        ("3/16"@, 0x401ea3d70a3d70a4),
        ("1/4"@, 0x40246b851eb851ec),
        ("9/32"@, 0x4027d98116ebd4d0),
        ("5/16"@, 0x4029851eb851eb85),
        ("11/32"@, 0x402af40e5a35d67c),
        ("23/64"@, 0x402c963dc486ad2e),
        ("3/8"@, 0x402e9eb851eb851f),
        ("7/16"@, 0x4031deb851eb851f),
        ("29/64"@, 0x403294db59578a2b),
        ("15/32"@, 0x4032de0a0f4d7add),
        ("1/2"@, 0x40346b50b0f27bb3),
        ("9/16"@, 0x4036f851eb851eb8),
        ("5/8"@, 0x4039851eb851eb85),
        ("11/16"@, 0x403c147ae147ae14),
        ("3/4"@, 0x403ea147ae147ae1),
        ("13/16"@, 0x404095c28f5c28f6),
        ("7/8"@, 0x4041dd70a3d70a3d),
        ("1.00"@, 0x40446b851eb851ec),
        ("1.25"@, 0x4049866666666666),
        ("1.375"@, 0x404c0ccccccccccd),
        ("1.50"@, 0x404ea147ae147ae1),
        ("1.75"@, 0x4051de147ae147ae),
        ("2.00"@, 0x40546b851eb851ec),
        ("2.50"@, 0x4059866666666666),
        ("3.00"@, 0x405ea147ae147ae1),
    ]
}

fn hr_hrpo_cr_table() -> (t: GaugeTable)
    ensures
        rows_sorted(t@),
        t@.to_multiset() == hr_hrpo_cr_rows().to_multiset(),
{
    let rows: [(&str, u64); 51] = [
        ("4", 0x4022c00000000000),
        ("5", 0x4021800000000000),
        ("7", 0x401e000000000000),
        ("8", 0x401b800000000000),
        ("9", 0x4019000000000000),
        ("10", 0x4016800000000000),
        ("11", 0x4014000000000000),
        ("12", 0x4011800000000000),
        ("13", 0x400e000000000000),
        ("14", 0x4009000000000000),
        ("15", 0x4006800000000000),
        ("16", 0x4004000000000000),
        ("17", 0x4002000000000000),
        ("18", 0x4000000000000000),
        ("19", 0x3ffc000000000000),
        ("20", 0x3ff8000000000000),
        ("21", 0x3ff6000000000000),
        ("22", 0x3ff4000000000000),
        ("23", 0x3ff2000000000000),
        ("24", 0x3ff0000000000000),
        ("25", 0x3fec000000000000),
        ("26", 0x3fe8000000000000),
        ("27", 0x3fe6000000000000),
        ("28", 0x3fe4000000000000),
        ("29", 0x3fe2000000000000),
        ("30", 0x3fe0000000000000),
        ("3/16", 0x401ea3d70a3d70a4),
        ("1/4", 0x40246b851eb851ec),
        ("9/32", 0x4027d98116ebd4d0),
        ("5/16", 0x4029851eb851eb85),
        ("11/32", 0x402af40e5a35d67c),
        ("23/64", 0x402c963dc486ad2e),
        ("3/8", 0x402e9eb851eb851f),
        ("7/16", 0x4031deb851eb851f),
        ("29/64", 0x403294db59578a2b),
        ("15/32", 0x4032de0a0f4d7add),
        ("1/2", 0x40346b50b0f27bb3),
        ("9/16", 0x4036f851eb851eb8),
        ("5/8", 0x4039851eb851eb85),
        ("11/16", 0x403c147ae147ae14),
        ("3/4", 0x403ea147ae147ae1),
        ("13/16", 0x404095c28f5c28f6),
        ("7/8", 0x4041dd70a3d70a3d),
        ("1.00", 0x40446b851eb851ec),
        ("1.25", 0x4049866666666666),
        ("1.375", 0x404c0ccccccccccd),
        ("1.50", 0x404ea147ae147ae1),
        ("1.75", 0x4051de147ae147ae),
        ("2.00", 0x40546b851eb851ec),
        ("2.50", 0x4059866666666666),
        ("3.00", 0x405ea147ae147ae1),
    ];
    let t = GaugeTable::new(&rows);
    assert(Seq::new(rows@.len(), |i: int| (rows@[i].0@, rows@[i].1)) =~= hr_hrpo_cr_rows());
    t
}

/// Rows of the GALV/JK/BOND table, as listed (psf 7.031 to 0.53085).
pub open spec fn galv_jk_bond_rows() -> Seq<(Seq<char>, u64)> {
    seq![
        ("8"@, 0x401c1fbe76c8b439),
        ("9"@, 0x4019000000000000),
        ("10"@, 0x4017200000000000),
        ("11"@, 0x4014a00000000000),
        ("12"@, 0x4012200000000000),
        ("13"@, 0x400f400000000000),
        ("14"@, 0x400a400000000000),
        ("15"@, 0x4007c00000000000),
        ("16"@, 0x4005400000000000),
        ("17"@, 0x4003400000000000),
        ("18"@, 0x4001400000000000),
        ("19"@, 0x3ffe800000000000),
        ("20"@, 0x3ffa800000000000),
        ("22"@, 0x3ff6800000000000),
        ("23"@, 0x3ff4800000000000),
        ("24"@, 0x3ff2800000000000),
        ("25"@, 0x3ff0800000000000),
        ("26"@, 0x3fed000000000000),
        ("28"@, 0x3fe9000000000000),
        ("30"@, 0x3fe5000000000000),
        ("32"@, 0x3fe0fcb923a29c78),
    ]
}

fn galv_jk_bond_table() -> (t: GaugeTable)
    ensures
        rows_sorted(t@),
        t@.to_multiset() == galv_jk_bond_rows().to_multiset(),
{
    let rows: [(&str, u64); 21] = [
        ("8", 0x401c1fbe76c8b439),
        ("9", 0x4019000000000000),
        ("10", 0x4017200000000000),
        ("11", 0x4014a00000000000),
        ("12", 0x4012200000000000),
        ("13", 0x400f400000000000),
        ("14", 0x400a400000000000),
        ("15", 0x4007c00000000000),
        ("16", 0x4005400000000000),
        ("17", 0x4003400000000000),
        ("18", 0x4001400000000000),
        ("19", 0x3ffe800000000000),
        ("20", 0x3ffa800000000000),
        ("22", 0x3ff6800000000000),
        ("23", 0x3ff4800000000000),
        ("24", 0x3ff2800000000000),
        ("25", 0x3ff0800000000000),
        ("26", 0x3fed000000000000),
        ("28", 0x3fe9000000000000),
        ("30", 0x3fe5000000000000),
        ("32", 0x3fe0fcb923a29c78),
    ];
    let t = GaugeTable::new(&rows);
    assert(Seq::new(rows@.len(), |i: int| (rows@[i].0@, rows@[i].1)) =~= galv_jk_bond_rows());
    t
}

/// Rows of the ALUMINIZED table, as listed (psf 4.452 to 0.702).
pub open spec fn aluminized_rows() -> Seq<(Seq<char>, u64)> {
    seq![
        ("12"@, 0x4011ced916872b02),
        ("13"@, 0x400e9db22d0e5604),
        ("14"@, 0x40099db22d0e5604),
        ("16"@, 0x40049db22d0e5604),
        ("18"@, 0x40009db22d0e5604),
        ("20"@, 0x3ff93b645a1cac08),
        ("22"@, 0x3ff53b645a1cac08),
        ("24"@, 0x3ff13b645a1cac08),
        ("26"@, 0x3fea76c8b4395810),
        ("28"@, 0x3fe676c8b4395810),
    ]
}

fn aluminized_table() -> (t: GaugeTable)
    ensures
        rows_sorted(t@),
        t@.to_multiset() == aluminized_rows().to_multiset(),
{
    let rows: [(&str, u64); 10] = [
        ("12", 0x4011ced916872b02),
        ("13", 0x400e9db22d0e5604),
        ("14", 0x40099db22d0e5604),
        ("16", 0x40049db22d0e5604),
        ("18", 0x40009db22d0e5604),
        ("20", 0x3ff93b645a1cac08),
        ("22", 0x3ff53b645a1cac08),
        ("24", 0x3ff13b645a1cac08),
        ("26", 0x3fea76c8b4395810),
        ("28", 0x3fe676c8b4395810),
    ];
    let t = GaugeTable::new(&rows);
    assert(Seq::new(rows@.len(), |i: int| (rows@[i].0@, rows@[i].1)) =~= aluminized_rows());
    t
}

/// Rows of the ALUMINUM table, as listed (psf 3.22 to 0.08).
pub open spec fn aluminum_rows() -> Seq<(Seq<char>, u64)> {
    seq![
        ("3"@, 0x4009c28f5c28f5c3),
        ("4"@, 0x4006f5c28f5c28f6),
        ("5"@, 0x4004666666666666),
        ("6"@, 0x400228f5c28f5c29),
        ("7"@, 0x40003d70a3d70a3d),
        ("8"@, 0x3ffccccccccccccd),
        ("9"@, 0x3ff9c28f5c28f5c3),
        ("10"@, 0x3ff6e147ae147ae1),
        ("11"@, 0x3ff451eb851eb852),
        ("12"@, 0x3ff2147ae147ae14),
        ("13"@, 0x3ff028f5c28f5c29),
        ("14"@, 0x3feccccccccccccd),
        ("15"@, 0x3fe999999999999a),
        ("16"@, 0x3fe6b851eb851eb8),
        ("17"@, 0x3fe47ae147ae147b),
        ("18"@, 0x3fe23d70a3d70a3d),
        ("19"@, 0x3fe0000000000000),
        ("20"@, 0x3fdccccccccccccd),
        ("21"@, 0x3fd999999999999a),
        ("22"@, 0x3fd70a3d70a3d70a),
        ("23"@, 0x3fd47ae147ae147b),
        ("24"@, 0x3fd1eb851eb851ec),
        ("25"@, 0x3fd0000000000000),
        ("26"@, 0x3fcc28f5c28f5c29),
        ("27"@, 0x3fc999999999999a),
        ("28"@, 0x3fc70a3d70a3d70a),
        ("29"@, 0x3fc47ae147ae147b),
        ("30"@, 0x3fc1eb851eb851ec),
        ("31"@, 0x3fc0a3d70a3d70a4),
        ("32"@, 0x3fbc28f5c28f5c29),
        ("33"@, 0x3fb999999999999a),
        ("34"@, 0x3fb70a3d70a3d70a),
        ("35"@, 0x3fb47ae147ae147b),
    ]
}

fn aluminum_table() -> (t: GaugeTable)
    ensures
        rows_sorted(t@),
        t@.to_multiset() == aluminum_rows().to_multiset(),
{
    let rows: [(&str, u64); 33] = [
        ("3", 0x4009c28f5c28f5c3),
        ("4", 0x4006f5c28f5c28f6),
        ("5", 0x4004666666666666),
        ("6", 0x400228f5c28f5c29),
        ("7", 0x40003d70a3d70a3d),
        ("8", 0x3ffccccccccccccd),
        ("9", 0x3ff9c28f5c28f5c3),
        ("10", 0x3ff6e147ae147ae1),
        ("11", 0x3ff451eb851eb852),
        ("12", 0x3ff2147ae147ae14),
        ("13", 0x3ff028f5c28f5c29),
        ("14", 0x3feccccccccccccd),
        ("15", 0x3fe999999999999a),
        ("16", 0x3fe6b851eb851eb8),
        ("17", 0x3fe47ae147ae147b),
        ("18", 0x3fe23d70a3d70a3d),
        ("19", 0x3fe0000000000000),
        ("20", 0x3fdccccccccccccd),
        ("21", 0x3fd999999999999a),
        ("22", 0x3fd70a3d70a3d70a),
        ("23", 0x3fd47ae147ae147b),
        ("24", 0x3fd1eb851eb851ec),
        ("25", 0x3fd0000000000000),
        ("26", 0x3fcc28f5c28f5c29),
        ("27", 0x3fc999999999999a),
        ("28", 0x3fc70a3d70a3d70a),
        ("29", 0x3fc47ae147ae147b),
        ("30", 0x3fc1eb851eb851ec),
        ("31", 0x3fc0a3d70a3d70a4),
        ("32", 0x3fbc28f5c28f5c29),
        ("33", 0x3fb999999999999a),
        ("34", 0x3fb70a3d70a3d70a),
        ("35", 0x3fb47ae147ae147b),
    ];
    let t = GaugeTable::new(&rows);
    assert(Seq::new(rows@.len(), |i: int| (rows@[i].0@, rows@[i].1)) =~= aluminum_rows());
    t
}

/// Rows of the HR FLOOR PLATE table, as listed (psf 5.25 to 31.68).
pub open spec fn hr_floor_plate_rows() -> Seq<(Seq<char>, u64)> {
    seq![
        ("12"@, 0x4015000000000000),
        ("14"@, 0x400e000000000000),
        ("16"@, 0x400799999999999a),
        ("1/8"@, 0x4018a3d70a3d70a4),
        ("3/16"@, 0x40216b851eb851ec),
        ("1/4"@, 0x4026851eb851eb85),
        ("5/16"@, 0x402b9eb851eb851f),
        ("3/8"@, 0x40305eb851eb851f),
        ("1/2"@, 0x40357851eb851eb8),
        ("3/4"@, 0x403fae147ae147ae),
    ]
}

fn hr_floor_plate_table() -> (t: GaugeTable)
    ensures
        rows_sorted(t@),
        t@.to_multiset() == hr_floor_plate_rows().to_multiset(),
{
    let rows: [(&str, u64); 10] = [
        ("12", 0x4015000000000000),
        ("14", 0x400e000000000000),
        ("16", 0x400799999999999a),
        ("1/8", 0x4018a3d70a3d70a4),
        ("3/16", 0x40216b851eb851ec),
        ("1/4", 0x4026851eb851eb85),
        ("5/16", 0x402b9eb851eb851f),
        ("3/8", 0x40305eb851eb851f),
        ("1/2", 0x40357851eb851eb8),
        ("3/4", 0x403fae147ae147ae),
    ];
    let t = GaugeTable::new(&rows);
    assert(Seq::new(rows@.len(), |i: int| (rows@[i].0@, rows@[i].1)) =~= hr_floor_plate_rows());
    t
}

/// Rows of the HOT ROLLED PLATE table, as listed (psf 7.66 to 122.52).
pub open spec fn hot_rolled_plate_rows() -> Seq<(Seq<char>, u64)> {
    seq![
        ("3/16"@, 0x401ea3d70a3d70a4),
        ("1/4"@, 0x40246b851eb851ec),
        ("9/32"@, 0x4027d98116ebd4d0),
        ("5/16"@, 0x4029851eb851eb85),
        ("11/32"@, 0x402af40e5a35d67c),
        ("23/64"@, 0x402c963dc486ad2e),
        ("3/8"@, 0x402e9eb851eb851f),
        ("7/16"@, 0x4031deb851eb851f),
        ("29/64"@, 0x403294db59578a2b),
        ("15/32"@, 0x4032de0a0f4d7add),
        ("1/2"@, 0x40346b50b0f27bb3),
        ("9/16"@, 0x4036f851eb851eb8),
        ("5/8"@, 0x4039851eb851eb85),
        ("3/4"@, 0x403ea147ae147ae1),
        ("13/16"@, 0x404095c28f5c28f6),
        ("7/8"@, 0x4041dd70a3d70a3d),
        ("1"@, 0x40446b851eb851ec),
        ("1-1/4"@, 0x4049866666666666),
        ("1-3/8"@, 0x404c0ccccccccccd),
        ("1-1/2"@, 0x404ea147ae147ae1),
        ("1-3/4"@, 0x4051de147ae147ae),
        ("2"@, 0x40546b851eb851ec),
        ("2-1/2"@, 0x4059866666666666),
        ("3"@, 0x405ea147ae147ae1),
    ]
}

fn hot_rolled_plate_table() -> (t: GaugeTable)
    ensures
        rows_sorted(t@),
        t@.to_multiset() == hot_rolled_plate_rows().to_multiset(),
{
    let rows: [(&str, u64); 24] = [
        ("3/16", 0x401ea3d70a3d70a4),
        ("1/4", 0x40246b851eb851ec),
        ("9/32", 0x4027d98116ebd4d0),
        ("5/16", 0x4029851eb851eb85),
        ("11/32", 0x402af40e5a35d67c),
        ("23/64", 0x402c963dc486ad2e),
        ("3/8", 0x402e9eb851eb851f),
        ("7/16", 0x4031deb851eb851f),
        ("29/64", 0x403294db59578a2b),
        ("15/32", 0x4032de0a0f4d7add),
        ("1/2", 0x40346b50b0f27bb3),
        ("9/16", 0x4036f851eb851eb8),
        ("5/8", 0x4039851eb851eb85),
        ("3/4", 0x403ea147ae147ae1),
        ("13/16", 0x404095c28f5c28f6),
        ("7/8", 0x4041dd70a3d70a3d),
        ("1", 0x40446b851eb851ec),
        ("1-1/4", 0x4049866666666666),
        ("1-3/8", 0x404c0ccccccccccd),
        ("1-1/2", 0x404ea147ae147ae1),
        ("1-3/4", 0x4051de147ae147ae),
        ("2", 0x40546b851eb851ec),
        ("2-1/2", 0x4059866666666666),
        ("3", 0x405ea147ae147ae1),
    ];
    let t = GaugeTable::new(&rows);
    assert(Seq::new(rows@.len(), |i: int| (rows@[i].0@, rows@[i].1)) =~= hot_rolled_plate_rows());
    t
}

/// Rows of the STAINLESS table, as listed (psf 4.427 to 0.65).
pub open spec fn stainless_rows() -> Seq<(Seq<char>, u64)> {
    seq![
        ("12"@, 0x4011b53f7ced9168),
        ("14"@, 0x40093b645a1cac08),
        ("16"@, 0x4003fdf3b645a1cb),
        ("18"@, 0x400020c49ba5e354),
        ("20"@, 0x3ffa666666666666),
        ("22"@, 0x3ff4cccccccccccd),
        ("24"@, 0x3ff07ae147ae147b),
        ("26"@, 0x3fea3d70a3d70a3d),
        ("28"@, 0x3fe4cccccccccccd),
    ]
}

fn stainless_table() -> (t: GaugeTable)
    ensures
        rows_sorted(t@),
        t@.to_multiset() == stainless_rows().to_multiset(),
{
    let rows: [(&str, u64); 9] = [
        ("12", 0x4011b53f7ced9168),
        ("14", 0x40093b645a1cac08),
        ("16", 0x4003fdf3b645a1cb),
        ("18", 0x400020c49ba5e354),
        ("20", 0x3ffa666666666666),
        ("22", 0x3ff4cccccccccccd),
        ("24", 0x3ff07ae147ae147b),
        ("26", 0x3fea3d70a3d70a3d),
        ("28", 0x3fe4cccccccccccd),
    ];
    let t = GaugeTable::new(&rows);
    assert(Seq::new(rows@.len(), |i: int| (rows@[i].0@, rows@[i].1)) =~= stainless_rows());
    t
}
/// Names of the built-in tables, in the order they are listed.
pub open spec fn builtin_names() -> Seq<Seq<char>> {
    seq!["HR/HRPO/CR"@, "GALV/JK/BOND"@, "ALUMINIZED"@, "ALUMINUM"@, "HR FLOOR PLATE"@, "HOT ROLLED PLATE"@, "STAINLESS"@]
}

/// Rows of the built-in table listed at `i`.
pub open spec fn builtin_rows(i: int) -> Seq<(Seq<char>, u64)> {
    if i == 0 {
        hr_hrpo_cr_rows()
    } else if i == 1 {
        galv_jk_bond_rows()
    } else if i == 2 {
        aluminized_rows()
    } else if i == 3 {
        aluminum_rows()
    } else if i == 4 {
        hr_floor_plate_rows()
    } else if i == 5 {
        hot_rolled_plate_rows()
    } else {
        stainless_rows()
    }
}

/// The built-in tables: each name of `builtin_names` holds its listed rows in
/// key order, and no other name is present.
pub open spec fn is_builtin(tables: GaugeTables) -> bool {
    &&& forall|i: int|
        0 <= i < 7 ==> match #[trigger] tables.lookup(builtin_names()[i]) {
            Some(rows) => rows_sorted(rows) && rows.to_multiset() == builtin_rows(i).to_multiset(),
            None => false,
        }
    &&& forall|n: Seq<char>| !builtin_names().contains(n) ==> #[trigger] tables.lookup(n) is None
}

/// The gauge charts the calculator publishes, table by table, each row a
/// gauge or size key and its weight in pounds per square foot (the bits of
/// the double nearest to the charted decimal, written after each row).
pub open spec fn published_chart(i: int) -> Seq<(Seq<char>, u64)> {
    if i == 0 {
        // HR/HRPO/CR
        seq![
            ("4"@, 0x4022c00000000000), // 9.375
            ("5"@, 0x4021800000000000), // 8.75
            ("7"@, 0x401e000000000000), // 7.5
            ("8"@, 0x401b800000000000), // 6.875
            ("9"@, 0x4019000000000000), // 6.25
            ("10"@, 0x4016800000000000), // 5.625
            ("11"@, 0x4014000000000000), // 5.0
            ("12"@, 0x4011800000000000), // 4.375
            ("13"@, 0x400e000000000000), // 3.75
            ("14"@, 0x4009000000000000), // 3.125
            ("15"@, 0x4006800000000000), // 2.8125
            ("16"@, 0x4004000000000000), // 2.5
            ("17"@, 0x4002000000000000), // 2.25
            ("18"@, 0x4000000000000000), // 2.0
            ("19"@, 0x3ffc000000000000), // 1.75
            ("20"@, 0x3ff8000000000000), // 1.5
            ("21"@, 0x3ff6000000000000), // 1.375
            ("22"@, 0x3ff4000000000000), // 1.25
            ("23"@, 0x3ff2000000000000), // 1.125
            ("24"@, 0x3ff0000000000000), // 1.0
            ("25"@, 0x3fec000000000000), // 0.875
            ("26"@, 0x3fe8000000000000), // 0.75
            ("27"@, 0x3fe6000000000000), // 0.6875
            ("28"@, 0x3fe4000000000000), // 0.625
            ("29"@, 0x3fe2000000000000), // 0.5625
            ("30"@, 0x3fe0000000000000), // 0.5
            ("3/16"@, 0x401ea3d70a3d70a4), // 7.66
            ("1/4"@, 0x40246b851eb851ec), // 10.21
            ("9/32"@, 0x4027d98116ebd4d0), // 11.924813
            ("5/16"@, 0x4029851eb851eb85), // 12.76
            ("11/32"@, 0x402af40e5a35d67c), // 13.476672
            ("23/64"@, 0x402c963dc486ad2e), // 14.29344
            ("3/8"@, 0x402e9eb851eb851f), // 15.31
            ("7/16"@, 0x4031deb851eb851f), // 17.87
            ("29/64"@, 0x403294db59578a2b), // 18.581472
            ("15/32"@, 0x4032de0a0f4d7add), // 18.867341
            ("1/2"@, 0x40346b50b0f27bb3), // 20.4192
            ("9/16"@, 0x4036f851eb851eb8), // 22.97
            ("5/8"@, 0x4039851eb851eb85), // 25.52
            ("11/16"@, 0x403c147ae147ae14), // 28.08
            ("3/4"@, 0x403ea147ae147ae1), // 30.63
            ("13/16"@, 0x404095c28f5c28f6), // 33.17
            ("7/8"@, 0x4041dd70a3d70a3d), // 35.73
            ("1.00"@, 0x40446b851eb851ec), // 40.84
            ("1.25"@, 0x4049866666666666), // 51.05
            ("1.375"@, 0x404c0ccccccccccd), // 56.1
            ("1.50"@, 0x404ea147ae147ae1), // 61.26
            ("1.75"@, 0x4051de147ae147ae), // 71.47
            ("2.00"@, 0x40546b851eb851ec), // 81.68
            ("2.50"@, 0x4059866666666666), // 102.1
            ("3.00"@, 0x405ea147ae147ae1), // 122.52
        ]
    } else if i == 1 {
        // GALV/JK/BOND
        seq![
            ("8"@, 0x401c1fbe76c8b439), // 7.031
            ("9"@, 0x4019000000000000), // 6.25
            ("10"@, 0x4017200000000000), // 5.78125
            ("11"@, 0x4014a00000000000), // 5.15625
            ("12"@, 0x4012200000000000), // 4.53125
            ("13"@, 0x400f400000000000), // 3.90625
            ("14"@, 0x400a400000000000), // 3.28125
            ("15"@, 0x4007c00000000000), // 2.96875
            ("16"@, 0x4005400000000000), // 2.65625
            ("17"@, 0x4003400000000000), // 2.40625
            ("18"@, 0x4001400000000000), // 2.15625
            ("19"@, 0x3ffe800000000000), // 1.90625
            ("20"@, 0x3ffa800000000000), // 1.65625
            ("22"@, 0x3ff6800000000000), // 1.40625
            ("23"@, 0x3ff4800000000000), // 1.28125
            ("24"@, 0x3ff2800000000000), // 1.15625
            ("25"@, 0x3ff0800000000000), // 1.03125
            ("26"@, 0x3fed000000000000), // 0.90625
            ("28"@, 0x3fe9000000000000), // 0.78125
            ("30"@, 0x3fe5000000000000), // 0.65625
            ("32"@, 0x3fe0fcb923a29c78), // 0.53085
        ]
    } else if i == 2 {
        // ALUMINIZED
        seq![
            ("12"@, 0x4011ced916872b02), // 4.452
            ("13"@, 0x400e9db22d0e5604), // 3.827
            ("14"@, 0x40099db22d0e5604), // 3.202
            ("16"@, 0x40049db22d0e5604), // 2.577
            ("18"@, 0x40009db22d0e5604), // 2.077
            ("20"@, 0x3ff93b645a1cac08), // 1.577
            ("22"@, 0x3ff53b645a1cac08), // 1.327
            ("24"@, 0x3ff13b645a1cac08), // 1.077
            ("26"@, 0x3fea76c8b4395810), // 0.827
            ("28"@, 0x3fe676c8b4395810), // 0.702
        ]
    } else if i == 3 {
        // ALUMINUM
        seq![
            ("3"@, 0x4009c28f5c28f5c3), // 3.22
            ("4"@, 0x4006f5c28f5c28f6), // 2.87
            ("5"@, 0x4004666666666666), // 2.55
            ("6"@, 0x400228f5c28f5c29), // 2.27
            ("7"@, 0x40003d70a3d70a3d), // 2.03
            ("8"@, 0x3ffccccccccccccd), // 1.80
            ("9"@, 0x3ff9c28f5c28f5c3), // 1.61
            ("10"@, 0x3ff6e147ae147ae1), // 1.43
            ("11"@, 0x3ff451eb851eb852), // 1.27
            ("12"@, 0x3ff2147ae147ae14), // 1.13
            ("13"@, 0x3ff028f5c28f5c29), // 1.01
            ("14"@, 0x3feccccccccccccd), // 0.90
            ("15"@, 0x3fe999999999999a), // 0.80
            ("16"@, 0x3fe6b851eb851eb8), // 0.71
            ("17"@, 0x3fe47ae147ae147b), // 0.64
            ("18"@, 0x3fe23d70a3d70a3d), // 0.57
            ("19"@, 0x3fe0000000000000), // 0.50
            ("20"@, 0x3fdccccccccccccd), // 0.45
            ("21"@, 0x3fd999999999999a), // 0.40
            ("22"@, 0x3fd70a3d70a3d70a), // 0.36
            ("23"@, 0x3fd47ae147ae147b), // 0.32
            ("24"@, 0x3fd1eb851eb851ec), // 0.28
            ("25"@, 0x3fd0000000000000), // 0.25
            ("26"@, 0x3fcc28f5c28f5c29), // 0.22
            ("27"@, 0x3fc999999999999a), // 0.20
            ("28"@, 0x3fc70a3d70a3d70a), // 0.18
            ("29"@, 0x3fc47ae147ae147b), // 0.16
            ("30"@, 0x3fc1eb851eb851ec), // 0.14
            ("31"@, 0x3fc0a3d70a3d70a4), // 0.13
            ("32"@, 0x3fbc28f5c28f5c29), // 0.11
            ("33"@, 0x3fb999999999999a), // 0.10
            ("34"@, 0x3fb70a3d70a3d70a), // 0.09
            ("35"@, 0x3fb47ae147ae147b), // 0.08
        ]
    } else if i == 4 {
        // HR FLOOR PLATE
        seq![
            ("12"@, 0x4015000000000000), // 5.25
            ("14"@, 0x400e000000000000), // 3.75
            ("16"@, 0x400799999999999a), // 2.95
            ("1/8"@, 0x4018a3d70a3d70a4), // 6.16
            ("3/16"@, 0x40216b851eb851ec), // 8.71
            ("1/4"@, 0x4026851eb851eb85), // 11.26
            ("5/16"@, 0x402b9eb851eb851f), // 13.81
            ("3/8"@, 0x40305eb851eb851f), // 16.37
            ("1/2"@, 0x40357851eb851eb8), // 21.47
            ("3/4"@, 0x403fae147ae147ae), // 31.68
        ]
    } else if i == 5 {
        // HOT ROLLED PLATE
        seq![
            ("3/16"@, 0x401ea3d70a3d70a4), // 7.66
            ("1/4"@, 0x40246b851eb851ec), // 10.21
            ("9/32"@, 0x4027d98116ebd4d0), // 11.924813
            ("5/16"@, 0x4029851eb851eb85), // 12.76
            ("11/32"@, 0x402af40e5a35d67c), // 13.476672
            ("23/64"@, 0x402c963dc486ad2e), // 14.29344
            ("3/8"@, 0x402e9eb851eb851f), // 15.31
            ("7/16"@, 0x4031deb851eb851f), // 17.87
            ("29/64"@, 0x403294db59578a2b), // 18.581472
            ("15/32"@, 0x4032de0a0f4d7add), // 18.867341
            ("1/2"@, 0x40346b50b0f27bb3), // 20.4192
            ("9/16"@, 0x4036f851eb851eb8), // 22.97
            ("5/8"@, 0x4039851eb851eb85), // 25.52
            ("3/4"@, 0x403ea147ae147ae1), // 30.63
            ("13/16"@, 0x404095c28f5c28f6), // 33.17
            ("7/8"@, 0x4041dd70a3d70a3d), // 35.73
            ("1"@, 0x40446b851eb851ec), // 40.84
            ("1-1/4"@, 0x4049866666666666), // 51.05
            ("1-3/8"@, 0x404c0ccccccccccd), // 56.1
            ("1-1/2"@, 0x404ea147ae147ae1), // 61.26
            ("1-3/4"@, 0x4051de147ae147ae), // 71.47
            ("2"@, 0x40546b851eb851ec), // 81.68
            ("2-1/2"@, 0x4059866666666666), // 102.1
            ("3"@, 0x405ea147ae147ae1), // 122.52
        ]
    } else {
        // STAINLESS
        seq![
            ("12"@, 0x4011b53f7ced9168), // 4.427
            ("14"@, 0x40093b645a1cac08), // 3.154
            ("16"@, 0x4003fdf3b645a1cb), // 2.499
            ("18"@, 0x400020c49ba5e354), // 2.016
            ("20"@, 0x3ffa666666666666), // 1.65
            ("22"@, 0x3ff4cccccccccccd), // 1.30
            ("24"@, 0x3ff07ae147ae147b), // 1.03
            ("26"@, 0x3fea3d70a3d70a3d), // 0.82
            ("28"@, 0x3fe4cccccccccccd), // 0.65
        ]
    }
}

/// The names of the published charts, in the order of `published_chart`.
pub open spec fn published_names() -> Seq<Seq<char>> {
    seq!["HR/HRPO/CR"@, "GALV/JK/BOND"@, "ALUMINIZED"@, "ALUMINUM"@, "HR FLOOR PLATE"@, "HOT ROLLED PLATE"@, "STAINLESS"@]
}

/// The built-in tables hold exactly the published charts: under each chart's
/// name, the chart's rows (each key with its charted weight, nothing more),
/// put in key order; and every charted weight is a positive, finite double.
pub proof fn lemma_builtin_tables_hold_charts(t: GaugeTables)
    requires
        is_builtin(t),
    ensures
        forall|i: int|
            0 <= i < 7 ==> match #[trigger] t.lookup(published_names()[i]) {
                Some(rows) => rows_sorted(rows) && rows.to_multiset() == published_chart(i).to_multiset(),
                None => false,
            },
        forall|i: int, k: int|
            0 <= i < 7 && 0 <= k < published_chart(i).len() ==> 0 < #[trigger] published_chart(i)[k].1
                < 0x7FF0_0000_0000_0000u64,
{
    assert(builtin_names() =~= published_names());
    assert forall|i: int| 0 <= i < 7 implies builtin_rows(i) == published_chart(i) by {
        if i == 0 {
            assert(builtin_rows(i) =~= published_chart(i));
        } else if i == 1 {
            assert(builtin_rows(i) =~= published_chart(i));
        } else if i == 2 {
            assert(builtin_rows(i) =~= published_chart(i));
        } else if i == 3 {
            assert(builtin_rows(i) =~= published_chart(i));
        } else if i == 4 {
            assert(builtin_rows(i) =~= published_chart(i));
        } else if i == 5 {
            assert(builtin_rows(i) =~= published_chart(i));
        } else {
            assert(builtin_rows(i) =~= published_chart(i));
        }
    }
    assert forall|i: int| 0 <= i < 7 implies match #[trigger] t.lookup(published_names()[i]) {
        Some(rows) => rows_sorted(rows) && rows.to_multiset() == published_chart(i).to_multiset(),
        None => false,
    } by {
        assert(builtin_names()[i] == published_names()[i]);
        assert(builtin_rows(i) == published_chart(i));
    }
}

/// The seven built-in gauge tables.
pub fn builtin_gauge_tables() -> (r: GaugeTables)
    ensures
        is_builtin(r),
{
    proof {
        reveal_strlit("HR/HRPO/CR");
        assert("HR/HRPO/CR"@.len() == 10 && "HR/HRPO/CR"@[0] == 'H');
        reveal_strlit("GALV/JK/BOND");
        assert("GALV/JK/BOND"@.len() == 12 && "GALV/JK/BOND"@[0] == 'G');
        reveal_strlit("ALUMINIZED");
        assert("ALUMINIZED"@.len() == 10 && "ALUMINIZED"@[0] == 'A');
        reveal_strlit("ALUMINUM");
        assert("ALUMINUM"@.len() == 8 && "ALUMINUM"@[0] == 'A');
        reveal_strlit("HR FLOOR PLATE");
        assert("HR FLOOR PLATE"@.len() == 14 && "HR FLOOR PLATE"@[0] == 'H');
        reveal_strlit("HOT ROLLED PLATE");
        assert("HOT ROLLED PLATE"@.len() == 16 && "HOT ROLLED PLATE"@[0] == 'H');
        reveal_strlit("STAINLESS");
        assert("STAINLESS"@.len() == 9 && "STAINLESS"@[0] == 'S');
    }
    let t0 = hr_hrpo_cr_table();
    let t1 = galv_jk_bond_table();
    let t2 = aluminized_table();
    let t3 = aluminum_table();
    let t4 = hr_floor_plate_table();
    let t5 = hot_rolled_plate_table();
    let t6 = stainless_table();
    let ghost views = seq![t0@, t1@, t2@, t3@, t4@, t5@, t6@];
    let mut tables = GaugeTables::new();
    tables.insert(String::from_str("HR/HRPO/CR"), t0);
    tables.insert(String::from_str("GALV/JK/BOND"), t1);
    tables.insert(String::from_str("ALUMINIZED"), t2);
    tables.insert(String::from_str("ALUMINUM"), t3);
    tables.insert(String::from_str("HR FLOOR PLATE"), t4);
    tables.insert(String::from_str("HOT ROLLED PLATE"), t5);
    tables.insert(String::from_str("STAINLESS"), t6);
    proof {
        let names = builtin_names();
        assert forall|n: Seq<char>| !names.contains(n) implies #[trigger] tables.lookup(n) is None by {
            assert(names[0] == "HR/HRPO/CR"@);
            assert(names[1] == "GALV/JK/BOND"@);
            assert(names[2] == "ALUMINIZED"@);
            assert(names[3] == "ALUMINUM"@);
            assert(names[4] == "HR FLOOR PLATE"@);
            assert(names[5] == "HOT ROLLED PLATE"@);
            assert(names[6] == "STAINLESS"@);
        }
        assert forall|i: int| 0 <= i < 7 implies tables.lookup(names[i]) == Some(views[i]) by {
            if i == 0 {
                assert(names[0] == "HR/HRPO/CR"@);
            }
            if i == 1 {
                assert(names[1] == "GALV/JK/BOND"@);
            }
            if i == 2 {
                assert(names[2] == "ALUMINIZED"@);
            }
            if i == 3 {
                assert(names[3] == "ALUMINUM"@);
            }
            if i == 4 {
                assert(names[4] == "HR FLOOR PLATE"@);
            }
            if i == 5 {
                assert(names[5] == "HOT ROLLED PLATE"@);
            }
            if i == 6 {
                assert(names[6] == "STAINLESS"@);
            }
        }
    }
    tables
}

} // verus!
