use vstd::prelude::*;
use vstd::string::StringSliceAdditionalSpecFns;
use crate::specials::util::{colordef_spec, named_color_index, spec_named_color, NamedColor};

verus! {

/// A short summary of a name: its length, its first two bytes and its last byte. No two
/// names of the colour table share one.
spec fn name_sig(s: Seq<u8>) -> (int, u8, u8, u8) {
    (s.len() as int, s[0], s[1], s[s.len() - 1])
}

/// The summary of the name of entry `i` of the colour table.
spec fn sig_of_entry(i: int) -> (int, u8, u8, u8) {
    if i == 0 {
        (11int, 71u8, 114u8, 119u8)
    } else if i == 1 {
        (6int, 89u8, 101u8, 119u8)
    } else if i == 2 {
        (9int, 71u8, 111u8, 100u8)
    } else if i == 3 {
        (9int, 68u8, 97u8, 110u8)
    } else if i == 4 {
        (7int, 65u8, 112u8, 116u8)
    } else if i == 5 {
        (5int, 80u8, 101u8, 104u8)
    } else if i == 6 {
        (5int, 77u8, 101u8, 110u8)
    } else if i == 7 {
        (12int, 89u8, 101u8, 101u8)
    } else if i == 8 {
        (6int, 79u8, 114u8, 101u8)
    } else if i == 9 {
        (11int, 66u8, 117u8, 101u8)
    } else if i == 10 {
        (11int, 66u8, 105u8, 116u8)
    } else if i == 11 {
        (9int, 82u8, 101u8, 101u8)
    } else if i == 12 {
        (8int, 77u8, 97u8, 121u8)
    } else if i == 13 {
        (6int, 77u8, 97u8, 110u8)
    } else if i == 14 {
        (8int, 66u8, 114u8, 100u8)
    } else if i == 15 {
        (3int, 82u8, 101u8, 100u8)
    } else if i == 16 {
        (9int, 79u8, 114u8, 100u8)
    } else if i == 17 {
        (9int, 82u8, 117u8, 100u8)
    } else if i == 18 {
        (14int, 87u8, 105u8, 121u8)
    } else if i == 19 {
        (6int, 83u8, 97u8, 110u8)
    } else if i == 20 {
        (13int, 67u8, 97u8, 107u8)
    } else if i == 21 {
        (7int, 77u8, 97u8, 97u8)
    } else if i == 22 {
        (9int, 86u8, 105u8, 100u8)
    } else if i == 23 {
        (9int, 82u8, 104u8, 101u8)
    } else if i == 24 {
        (8int, 77u8, 117u8, 121u8)
    } else if i == 25 {
        (9int, 82u8, 101u8, 116u8)
    } else if i == 26 {
        (7int, 70u8, 117u8, 97u8)
    } else if i == 27 {
        (8int, 76u8, 97u8, 114u8)
    } else if i == 28 {
        (7int, 84u8, 104u8, 101u8)
    } else if i == 29 {
        (6int, 79u8, 114u8, 100u8)
    } else if i == 30 {
        (10int, 68u8, 97u8, 100u8)
    } else if i == 31 {
        (6int, 80u8, 117u8, 101u8)
    } else if i == 32 {
        (4int, 80u8, 108u8, 109u8)
    } else if i == 33 {
        (6int, 86u8, 105u8, 116u8)
    } else if i == 34 {
        (11int, 82u8, 111u8, 101u8)
    } else if i == 35 {
        (10int, 66u8, 108u8, 116u8)
    } else if i == 36 {
        (10int, 80u8, 101u8, 101u8)
    } else if i == 37 {
        (9int, 67u8, 97u8, 101u8)
    } else if i == 38 {
        (14int, 67u8, 111u8, 101u8)
    } else if i == 39 {
        (12int, 77u8, 105u8, 101u8)
    } else if i == 40 {
        (8int, 78u8, 97u8, 101u8)
    } else if i == 41 {
        (9int, 82u8, 111u8, 101u8)
    } else if i == 42 {
        (4int, 66u8, 108u8, 101u8)
    } else if i == 43 {
        (8int, 67u8, 101u8, 110u8)
    } else if i == 44 {
        (4int, 67u8, 121u8, 110u8)
    } else if i == 45 {
        (11int, 80u8, 114u8, 101u8)
    } else if i == 46 {
        (7int, 83u8, 107u8, 101u8)
    } else if i == 47 {
        (9int, 84u8, 117u8, 101u8)
    } else if i == 48 {
        (8int, 84u8, 101u8, 101u8)
    } else if i == 49 {
        (10int, 65u8, 113u8, 101u8)
    } else if i == 50 {
        (9int, 66u8, 108u8, 110u8)
    } else if i == 51 {
        (7int, 69u8, 109u8, 100u8)
    } else if i == 52 {
        (11int, 74u8, 117u8, 110u8)
    } else if i == 53 {
        (8int, 83u8, 101u8, 110u8)
    } else if i == 54 {
        (5int, 71u8, 114u8, 110u8)
    } else if i == 55 {
        (11int, 70u8, 111u8, 110u8)
    } else if i == 56 {
        (9int, 80u8, 105u8, 110u8)
    } else if i == 57 {
        (9int, 76u8, 105u8, 110u8)
    } else if i == 58 {
        (11int, 89u8, 101u8, 110u8)
    } else if i == 59 {
        (11int, 83u8, 112u8, 110u8)
    } else if i == 60 {
        (10int, 79u8, 108u8, 110u8)
    } else if i == 61 {
        (9int, 82u8, 97u8, 97u8)
    } else if i == 62 {
        (5int, 83u8, 101u8, 97u8)
    } else if i == 63 {
        (5int, 66u8, 114u8, 110u8)
    } else if i == 64 {
        (3int, 84u8, 97u8, 110u8)
    } else if i == 65 {
        (4int, 71u8, 114u8, 121u8)
    } else if i == 66 {
        (5int, 66u8, 108u8, 107u8)
    } else if i == 67 {
        (5int, 87u8, 104u8, 101u8)
    } else {
        (0int, 0u8, 0u8, 0u8)
    }
}

/// The entry whose name has summary `g`.
spec fn entry_of_sig(g: (int, u8, u8, u8)) -> int {
    if g == (11int, 71u8, 114u8, 119u8) {
        0
    } else if g == (6int, 89u8, 101u8, 119u8) {
        1
    } else if g == (9int, 71u8, 111u8, 100u8) {
        2
    } else if g == (9int, 68u8, 97u8, 110u8) {
        3
    } else if g == (7int, 65u8, 112u8, 116u8) {
        4
    } else if g == (5int, 80u8, 101u8, 104u8) {
        5
    } else if g == (5int, 77u8, 101u8, 110u8) {
        6
    } else if g == (12int, 89u8, 101u8, 101u8) {
        7
    } else if g == (6int, 79u8, 114u8, 101u8) {
        8
    } else if g == (11int, 66u8, 117u8, 101u8) {
        9
    } else if g == (11int, 66u8, 105u8, 116u8) {
        10
    } else if g == (9int, 82u8, 101u8, 101u8) {
        11
    } else if g == (8int, 77u8, 97u8, 121u8) {
        12
    } else if g == (6int, 77u8, 97u8, 110u8) {
        13
    } else if g == (8int, 66u8, 114u8, 100u8) {
        14
    } else if g == (3int, 82u8, 101u8, 100u8) {
        15
    } else if g == (9int, 79u8, 114u8, 100u8) {
        16
    } else if g == (9int, 82u8, 117u8, 100u8) {
        17
    } else if g == (14int, 87u8, 105u8, 121u8) {
        18
    } else if g == (6int, 83u8, 97u8, 110u8) {
        19
    } else if g == (13int, 67u8, 97u8, 107u8) {
        20
    } else if g == (7int, 77u8, 97u8, 97u8) {
        21
    } else if g == (9int, 86u8, 105u8, 100u8) {
        22
    } else if g == (9int, 82u8, 104u8, 101u8) {
        23
    } else if g == (8int, 77u8, 117u8, 121u8) {
        24
    } else if g == (9int, 82u8, 101u8, 116u8) {
        25
    } else if g == (7int, 70u8, 117u8, 97u8) {
        26
    } else if g == (8int, 76u8, 97u8, 114u8) {
        27
    } else if g == (7int, 84u8, 104u8, 101u8) {
        28
    } else if g == (6int, 79u8, 114u8, 100u8) {
        29
    } else if g == (10int, 68u8, 97u8, 100u8) {
        30
    } else if g == (6int, 80u8, 117u8, 101u8) {
        31
    } else if g == (4int, 80u8, 108u8, 109u8) {
        32
    } else if g == (6int, 86u8, 105u8, 116u8) {
        33
    } else if g == (11int, 82u8, 111u8, 101u8) {
        34
    } else if g == (10int, 66u8, 108u8, 116u8) {
        35
    } else if g == (10int, 80u8, 101u8, 101u8) {
        36
    } else if g == (9int, 67u8, 97u8, 101u8) {
        37
    } else if g == (14int, 67u8, 111u8, 101u8) {
        38
    } else if g == (12int, 77u8, 105u8, 101u8) {
        39
    } else if g == (8int, 78u8, 97u8, 101u8) {
        40
    } else if g == (9int, 82u8, 111u8, 101u8) {
        41
    } else if g == (4int, 66u8, 108u8, 101u8) {
        42
    } else if g == (8int, 67u8, 101u8, 110u8) {
        43
    } else if g == (4int, 67u8, 121u8, 110u8) {
        44
    } else if g == (11int, 80u8, 114u8, 101u8) {
        45
    } else if g == (7int, 83u8, 107u8, 101u8) {
        46
    } else if g == (9int, 84u8, 117u8, 101u8) {
        47
    } else if g == (8int, 84u8, 101u8, 101u8) {
        48
    } else if g == (10int, 65u8, 113u8, 101u8) {
        49
    } else if g == (9int, 66u8, 108u8, 110u8) {
        50
    } else if g == (7int, 69u8, 109u8, 100u8) {
        51
    } else if g == (11int, 74u8, 117u8, 110u8) {
        52
    } else if g == (8int, 83u8, 101u8, 110u8) {
        53
    } else if g == (5int, 71u8, 114u8, 110u8) {
        54
    } else if g == (11int, 70u8, 111u8, 110u8) {
        55
    } else if g == (9int, 80u8, 105u8, 110u8) {
        56
    } else if g == (9int, 76u8, 105u8, 110u8) {
        57
    } else if g == (11int, 89u8, 101u8, 110u8) {
        58
    } else if g == (11int, 83u8, 112u8, 110u8) {
        59
    } else if g == (10int, 79u8, 108u8, 110u8) {
        60
    } else if g == (9int, 82u8, 97u8, 97u8) {
        61
    } else if g == (5int, 83u8, 101u8, 97u8) {
        62
    } else if g == (5int, 66u8, 114u8, 110u8) {
        63
    } else if g == (3int, 84u8, 97u8, 110u8) {
        64
    } else if g == (4int, 71u8, 114u8, 121u8) {
        65
    } else if g == (5int, 66u8, 108u8, 107u8) {
        66
    } else if g == (5int, 87u8, 104u8, 101u8) {
        67
    } else {
        -1
    }
}

proof fn lemma_sig_entry(i: int)
    requires
        0 <= i < 68,
    ensures
        entry_of_sig(sig_of_entry(i)) == i,
{
}

proof fn lemma_name_bytes_0()
    ensures
        colordef_spec(0).0.spec_bytes() == seq![71u8, 114u8, 101u8, 101u8, 110u8, 89u8, 101u8, 108u8, 108u8, 111u8, 119u8],
{
    reveal_strlit("GreenYellow");
    assert(vstd::string::is_ascii("GreenYellow"));
    vstd::string::is_ascii_spec_bytes("GreenYellow");
    assert("GreenYellow".spec_bytes() =~= seq![71u8, 114u8, 101u8, 101u8, 110u8, 89u8, 101u8, 108u8, 108u8, 111u8, 119u8]);
}

proof fn lemma_name_bytes_1()
    ensures
        colordef_spec(1).0.spec_bytes() == seq![89u8, 101u8, 108u8, 108u8, 111u8, 119u8],
{
    reveal_strlit("Yellow");
    assert(vstd::string::is_ascii("Yellow"));
    vstd::string::is_ascii_spec_bytes("Yellow");
    assert("Yellow".spec_bytes() =~= seq![89u8, 101u8, 108u8, 108u8, 111u8, 119u8]);
}

proof fn lemma_name_bytes_2()
    ensures
        colordef_spec(2).0.spec_bytes() == seq![71u8, 111u8, 108u8, 100u8, 101u8, 110u8, 114u8, 111u8, 100u8],
{
    reveal_strlit("Goldenrod");
    assert(vstd::string::is_ascii("Goldenrod"));
    vstd::string::is_ascii_spec_bytes("Goldenrod");
    assert("Goldenrod".spec_bytes() =~= seq![71u8, 111u8, 108u8, 100u8, 101u8, 110u8, 114u8, 111u8, 100u8]);
}

proof fn lemma_name_bytes_3()
    ensures
        colordef_spec(3).0.spec_bytes() == seq![68u8, 97u8, 110u8, 100u8, 101u8, 108u8, 105u8, 111u8, 110u8],
{
    reveal_strlit("Dandelion");
    assert(vstd::string::is_ascii("Dandelion"));
    vstd::string::is_ascii_spec_bytes("Dandelion");
    assert("Dandelion".spec_bytes() =~= seq![68u8, 97u8, 110u8, 100u8, 101u8, 108u8, 105u8, 111u8, 110u8]);
}

proof fn lemma_name_bytes_4()
    ensures
        colordef_spec(4).0.spec_bytes() == seq![65u8, 112u8, 114u8, 105u8, 99u8, 111u8, 116u8],
{
    reveal_strlit("Apricot");
    assert(vstd::string::is_ascii("Apricot"));
    vstd::string::is_ascii_spec_bytes("Apricot");
    assert("Apricot".spec_bytes() =~= seq![65u8, 112u8, 114u8, 105u8, 99u8, 111u8, 116u8]);
}

proof fn lemma_name_bytes_5()
    ensures
        colordef_spec(5).0.spec_bytes() == seq![80u8, 101u8, 97u8, 99u8, 104u8],
{
    reveal_strlit("Peach");
    assert(vstd::string::is_ascii("Peach"));
    vstd::string::is_ascii_spec_bytes("Peach");
    assert("Peach".spec_bytes() =~= seq![80u8, 101u8, 97u8, 99u8, 104u8]);
}

proof fn lemma_name_bytes_6()
    ensures
        colordef_spec(6).0.spec_bytes() == seq![77u8, 101u8, 108u8, 111u8, 110u8],
{
    reveal_strlit("Melon");
    assert(vstd::string::is_ascii("Melon"));
    vstd::string::is_ascii_spec_bytes("Melon");
    assert("Melon".spec_bytes() =~= seq![77u8, 101u8, 108u8, 111u8, 110u8]);
}

proof fn lemma_name_bytes_7()
    ensures
        colordef_spec(7).0.spec_bytes() == seq![89u8, 101u8, 108u8, 108u8, 111u8, 119u8, 79u8, 114u8, 97u8, 110u8, 103u8, 101u8],
{
    reveal_strlit("YellowOrange");
    assert(vstd::string::is_ascii("YellowOrange"));
    vstd::string::is_ascii_spec_bytes("YellowOrange");
    assert("YellowOrange".spec_bytes() =~= seq![89u8, 101u8, 108u8, 108u8, 111u8, 119u8, 79u8, 114u8, 97u8, 110u8, 103u8, 101u8]);
}

proof fn lemma_name_bytes_8()
    ensures
        colordef_spec(8).0.spec_bytes() == seq![79u8, 114u8, 97u8, 110u8, 103u8, 101u8],
{
    reveal_strlit("Orange");
    assert(vstd::string::is_ascii("Orange"));
    vstd::string::is_ascii_spec_bytes("Orange");
    assert("Orange".spec_bytes() =~= seq![79u8, 114u8, 97u8, 110u8, 103u8, 101u8]);
}

proof fn lemma_name_bytes_9()
    ensures
        colordef_spec(9).0.spec_bytes() == seq![66u8, 117u8, 114u8, 110u8, 116u8, 79u8, 114u8, 97u8, 110u8, 103u8, 101u8],
{
    reveal_strlit("BurntOrange");
    assert(vstd::string::is_ascii("BurntOrange"));
    vstd::string::is_ascii_spec_bytes("BurntOrange");
    assert("BurntOrange".spec_bytes() =~= seq![66u8, 117u8, 114u8, 110u8, 116u8, 79u8, 114u8, 97u8, 110u8, 103u8, 101u8]);
}

proof fn lemma_name_bytes_10()
    ensures
        colordef_spec(10).0.spec_bytes() == seq![66u8, 105u8, 116u8, 116u8, 101u8, 114u8, 115u8, 119u8, 101u8, 101u8, 116u8],
{
    reveal_strlit("Bittersweet");
    assert(vstd::string::is_ascii("Bittersweet"));
    vstd::string::is_ascii_spec_bytes("Bittersweet");
    assert("Bittersweet".spec_bytes() =~= seq![66u8, 105u8, 116u8, 116u8, 101u8, 114u8, 115u8, 119u8, 101u8, 101u8, 116u8]);
}

proof fn lemma_name_bytes_11()
    ensures
        colordef_spec(11).0.spec_bytes() == seq![82u8, 101u8, 100u8, 79u8, 114u8, 97u8, 110u8, 103u8, 101u8],
{
    reveal_strlit("RedOrange");
    assert(vstd::string::is_ascii("RedOrange"));
    vstd::string::is_ascii_spec_bytes("RedOrange");
    assert("RedOrange".spec_bytes() =~= seq![82u8, 101u8, 100u8, 79u8, 114u8, 97u8, 110u8, 103u8, 101u8]);
}

proof fn lemma_name_bytes_12()
    ensures
        colordef_spec(12).0.spec_bytes() == seq![77u8, 97u8, 104u8, 111u8, 103u8, 97u8, 110u8, 121u8],
{
    reveal_strlit("Mahogany");
    assert(vstd::string::is_ascii("Mahogany"));
    vstd::string::is_ascii_spec_bytes("Mahogany");
    assert("Mahogany".spec_bytes() =~= seq![77u8, 97u8, 104u8, 111u8, 103u8, 97u8, 110u8, 121u8]);
}

proof fn lemma_name_bytes_13()
    ensures
        colordef_spec(13).0.spec_bytes() == seq![77u8, 97u8, 114u8, 111u8, 111u8, 110u8],
{
    reveal_strlit("Maroon");
    assert(vstd::string::is_ascii("Maroon"));
    vstd::string::is_ascii_spec_bytes("Maroon");
    assert("Maroon".spec_bytes() =~= seq![77u8, 97u8, 114u8, 111u8, 111u8, 110u8]);
}

proof fn lemma_name_bytes_14()
    ensures
        colordef_spec(14).0.spec_bytes() == seq![66u8, 114u8, 105u8, 99u8, 107u8, 82u8, 101u8, 100u8],
{
    reveal_strlit("BrickRed");
    assert(vstd::string::is_ascii("BrickRed"));
    vstd::string::is_ascii_spec_bytes("BrickRed");
    assert("BrickRed".spec_bytes() =~= seq![66u8, 114u8, 105u8, 99u8, 107u8, 82u8, 101u8, 100u8]);
}

proof fn lemma_name_bytes_15()
    ensures
        colordef_spec(15).0.spec_bytes() == seq![82u8, 101u8, 100u8],
{
    reveal_strlit("Red");
    assert(vstd::string::is_ascii("Red"));
    vstd::string::is_ascii_spec_bytes("Red");
    assert("Red".spec_bytes() =~= seq![82u8, 101u8, 100u8]);
}

proof fn lemma_name_bytes_16()
    ensures
        colordef_spec(16).0.spec_bytes() == seq![79u8, 114u8, 97u8, 110u8, 103u8, 101u8, 82u8, 101u8, 100u8],
{
    reveal_strlit("OrangeRed");
    assert(vstd::string::is_ascii("OrangeRed"));
    vstd::string::is_ascii_spec_bytes("OrangeRed");
    assert("OrangeRed".spec_bytes() =~= seq![79u8, 114u8, 97u8, 110u8, 103u8, 101u8, 82u8, 101u8, 100u8]);
}

proof fn lemma_name_bytes_17()
    ensures
        colordef_spec(17).0.spec_bytes() == seq![82u8, 117u8, 98u8, 105u8, 110u8, 101u8, 82u8, 101u8, 100u8],
{
    reveal_strlit("RubineRed");
    assert(vstd::string::is_ascii("RubineRed"));
    vstd::string::is_ascii_spec_bytes("RubineRed");
    assert("RubineRed".spec_bytes() =~= seq![82u8, 117u8, 98u8, 105u8, 110u8, 101u8, 82u8, 101u8, 100u8]);
}

proof fn lemma_name_bytes_18()
    ensures
        colordef_spec(18).0.spec_bytes() == seq![87u8, 105u8, 108u8, 100u8, 83u8, 116u8, 114u8, 97u8, 119u8, 98u8, 101u8, 114u8, 114u8, 121u8],
{
    reveal_strlit("WildStrawberry");
    assert(vstd::string::is_ascii("WildStrawberry"));
    vstd::string::is_ascii_spec_bytes("WildStrawberry");
    assert("WildStrawberry".spec_bytes() =~= seq![87u8, 105u8, 108u8, 100u8, 83u8, 116u8, 114u8, 97u8, 119u8, 98u8, 101u8, 114u8, 114u8, 121u8]);
}

proof fn lemma_name_bytes_19()
    ensures
        colordef_spec(19).0.spec_bytes() == seq![83u8, 97u8, 108u8, 109u8, 111u8, 110u8],
{
    reveal_strlit("Salmon");
    assert(vstd::string::is_ascii("Salmon"));
    vstd::string::is_ascii_spec_bytes("Salmon");
    assert("Salmon".spec_bytes() =~= seq![83u8, 97u8, 108u8, 109u8, 111u8, 110u8]);
}

proof fn lemma_name_bytes_20()
    ensures
        colordef_spec(20).0.spec_bytes() == seq![67u8, 97u8, 114u8, 110u8, 97u8, 116u8, 105u8, 111u8, 110u8, 80u8, 105u8, 110u8, 107u8],
{
    reveal_strlit("CarnationPink");
    assert(vstd::string::is_ascii("CarnationPink"));
    vstd::string::is_ascii_spec_bytes("CarnationPink");
    assert("CarnationPink".spec_bytes() =~= seq![67u8, 97u8, 114u8, 110u8, 97u8, 116u8, 105u8, 111u8, 110u8, 80u8, 105u8, 110u8, 107u8]);
}

proof fn lemma_name_bytes_21()
    ensures
        colordef_spec(21).0.spec_bytes() == seq![77u8, 97u8, 103u8, 101u8, 110u8, 116u8, 97u8],
{
    reveal_strlit("Magenta");
    assert(vstd::string::is_ascii("Magenta"));
    vstd::string::is_ascii_spec_bytes("Magenta");
    assert("Magenta".spec_bytes() =~= seq![77u8, 97u8, 103u8, 101u8, 110u8, 116u8, 97u8]);
}

proof fn lemma_name_bytes_22()
    ensures
        colordef_spec(22).0.spec_bytes() == seq![86u8, 105u8, 111u8, 108u8, 101u8, 116u8, 82u8, 101u8, 100u8],
{
    reveal_strlit("VioletRed");
    assert(vstd::string::is_ascii("VioletRed"));
    vstd::string::is_ascii_spec_bytes("VioletRed");
    assert("VioletRed".spec_bytes() =~= seq![86u8, 105u8, 111u8, 108u8, 101u8, 116u8, 82u8, 101u8, 100u8]);
}

proof fn lemma_name_bytes_23()
    ensures
        colordef_spec(23).0.spec_bytes() == seq![82u8, 104u8, 111u8, 100u8, 97u8, 109u8, 105u8, 110u8, 101u8],
{
    reveal_strlit("Rhodamine");
    assert(vstd::string::is_ascii("Rhodamine"));
    vstd::string::is_ascii_spec_bytes("Rhodamine");
    assert("Rhodamine".spec_bytes() =~= seq![82u8, 104u8, 111u8, 100u8, 97u8, 109u8, 105u8, 110u8, 101u8]);
}

proof fn lemma_name_bytes_24()
    ensures
        colordef_spec(24).0.spec_bytes() == seq![77u8, 117u8, 108u8, 98u8, 101u8, 114u8, 114u8, 121u8],
{
    reveal_strlit("Mulberry");
    assert(vstd::string::is_ascii("Mulberry"));
    vstd::string::is_ascii_spec_bytes("Mulberry");
    assert("Mulberry".spec_bytes() =~= seq![77u8, 117u8, 108u8, 98u8, 101u8, 114u8, 114u8, 121u8]);
}

proof fn lemma_name_bytes_25()
    ensures
        colordef_spec(25).0.spec_bytes() == seq![82u8, 101u8, 100u8, 86u8, 105u8, 111u8, 108u8, 101u8, 116u8],
{
    reveal_strlit("RedViolet");
    assert(vstd::string::is_ascii("RedViolet"));
    vstd::string::is_ascii_spec_bytes("RedViolet");
    assert("RedViolet".spec_bytes() =~= seq![82u8, 101u8, 100u8, 86u8, 105u8, 111u8, 108u8, 101u8, 116u8]);
}

proof fn lemma_name_bytes_26()
    ensures
        colordef_spec(26).0.spec_bytes() == seq![70u8, 117u8, 99u8, 104u8, 115u8, 105u8, 97u8],
{
    reveal_strlit("Fuchsia");
    assert(vstd::string::is_ascii("Fuchsia"));
    vstd::string::is_ascii_spec_bytes("Fuchsia");
    assert("Fuchsia".spec_bytes() =~= seq![70u8, 117u8, 99u8, 104u8, 115u8, 105u8, 97u8]);
}

proof fn lemma_name_bytes_27()
    ensures
        colordef_spec(27).0.spec_bytes() == seq![76u8, 97u8, 118u8, 101u8, 110u8, 100u8, 101u8, 114u8],
{
    reveal_strlit("Lavender");
    assert(vstd::string::is_ascii("Lavender"));
    vstd::string::is_ascii_spec_bytes("Lavender");
    assert("Lavender".spec_bytes() =~= seq![76u8, 97u8, 118u8, 101u8, 110u8, 100u8, 101u8, 114u8]);
}

proof fn lemma_name_bytes_28()
    ensures
        colordef_spec(28).0.spec_bytes() == seq![84u8, 104u8, 105u8, 115u8, 116u8, 108u8, 101u8],
{
    reveal_strlit("Thistle");
    assert(vstd::string::is_ascii("Thistle"));
    vstd::string::is_ascii_spec_bytes("Thistle");
    assert("Thistle".spec_bytes() =~= seq![84u8, 104u8, 105u8, 115u8, 116u8, 108u8, 101u8]);
}

proof fn lemma_name_bytes_29()
    ensures
        colordef_spec(29).0.spec_bytes() == seq![79u8, 114u8, 99u8, 104u8, 105u8, 100u8],
{
    reveal_strlit("Orchid");
    assert(vstd::string::is_ascii("Orchid"));
    vstd::string::is_ascii_spec_bytes("Orchid");
    assert("Orchid".spec_bytes() =~= seq![79u8, 114u8, 99u8, 104u8, 105u8, 100u8]);
}

proof fn lemma_name_bytes_30()
    ensures
        colordef_spec(30).0.spec_bytes() == seq![68u8, 97u8, 114u8, 107u8, 79u8, 114u8, 99u8, 104u8, 105u8, 100u8],
{
    reveal_strlit("DarkOrchid");
    assert(vstd::string::is_ascii("DarkOrchid"));
    vstd::string::is_ascii_spec_bytes("DarkOrchid");
    assert("DarkOrchid".spec_bytes() =~= seq![68u8, 97u8, 114u8, 107u8, 79u8, 114u8, 99u8, 104u8, 105u8, 100u8]);
}

proof fn lemma_name_bytes_31()
    ensures
        colordef_spec(31).0.spec_bytes() == seq![80u8, 117u8, 114u8, 112u8, 108u8, 101u8],
{
    reveal_strlit("Purple");
    assert(vstd::string::is_ascii("Purple"));
    vstd::string::is_ascii_spec_bytes("Purple");
    assert("Purple".spec_bytes() =~= seq![80u8, 117u8, 114u8, 112u8, 108u8, 101u8]);
}

proof fn lemma_name_bytes_32()
    ensures
        colordef_spec(32).0.spec_bytes() == seq![80u8, 108u8, 117u8, 109u8],
{
    reveal_strlit("Plum");
    assert(vstd::string::is_ascii("Plum"));
    vstd::string::is_ascii_spec_bytes("Plum");
    assert("Plum".spec_bytes() =~= seq![80u8, 108u8, 117u8, 109u8]);
}

proof fn lemma_name_bytes_33()
    ensures
        colordef_spec(33).0.spec_bytes() == seq![86u8, 105u8, 111u8, 108u8, 101u8, 116u8],
{
    reveal_strlit("Violet");
    assert(vstd::string::is_ascii("Violet"));
    vstd::string::is_ascii_spec_bytes("Violet");
    assert("Violet".spec_bytes() =~= seq![86u8, 105u8, 111u8, 108u8, 101u8, 116u8]);
}

proof fn lemma_name_bytes_34()
    ensures
        colordef_spec(34).0.spec_bytes() == seq![82u8, 111u8, 121u8, 97u8, 108u8, 80u8, 117u8, 114u8, 112u8, 108u8, 101u8],
{
    reveal_strlit("RoyalPurple");
    assert(vstd::string::is_ascii("RoyalPurple"));
    vstd::string::is_ascii_spec_bytes("RoyalPurple");
    assert("RoyalPurple".spec_bytes() =~= seq![82u8, 111u8, 121u8, 97u8, 108u8, 80u8, 117u8, 114u8, 112u8, 108u8, 101u8]);
}

proof fn lemma_name_bytes_35()
    ensures
        colordef_spec(35).0.spec_bytes() == seq![66u8, 108u8, 117u8, 101u8, 86u8, 105u8, 111u8, 108u8, 101u8, 116u8],
{
    reveal_strlit("BlueViolet");
    assert(vstd::string::is_ascii("BlueViolet"));
    vstd::string::is_ascii_spec_bytes("BlueViolet");
    assert("BlueViolet".spec_bytes() =~= seq![66u8, 108u8, 117u8, 101u8, 86u8, 105u8, 111u8, 108u8, 101u8, 116u8]);
}

proof fn lemma_name_bytes_36()
    ensures
        colordef_spec(36).0.spec_bytes() == seq![80u8, 101u8, 114u8, 105u8, 119u8, 105u8, 110u8, 107u8, 108u8, 101u8],
{
    reveal_strlit("Periwinkle");
    assert(vstd::string::is_ascii("Periwinkle"));
    vstd::string::is_ascii_spec_bytes("Periwinkle");
    assert("Periwinkle".spec_bytes() =~= seq![80u8, 101u8, 114u8, 105u8, 119u8, 105u8, 110u8, 107u8, 108u8, 101u8]);
}

proof fn lemma_name_bytes_37()
    ensures
        colordef_spec(37).0.spec_bytes() == seq![67u8, 97u8, 100u8, 101u8, 116u8, 66u8, 108u8, 117u8, 101u8],
{
    reveal_strlit("CadetBlue");
    assert(vstd::string::is_ascii("CadetBlue"));
    vstd::string::is_ascii_spec_bytes("CadetBlue");
    assert("CadetBlue".spec_bytes() =~= seq![67u8, 97u8, 100u8, 101u8, 116u8, 66u8, 108u8, 117u8, 101u8]);
}

proof fn lemma_name_bytes_38()
    ensures
        colordef_spec(38).0.spec_bytes() == seq![67u8, 111u8, 114u8, 110u8, 102u8, 108u8, 111u8, 119u8, 101u8, 114u8, 66u8, 108u8, 117u8, 101u8],
{
    reveal_strlit("CornflowerBlue");
    assert(vstd::string::is_ascii("CornflowerBlue"));
    vstd::string::is_ascii_spec_bytes("CornflowerBlue");
    assert("CornflowerBlue".spec_bytes() =~= seq![67u8, 111u8, 114u8, 110u8, 102u8, 108u8, 111u8, 119u8, 101u8, 114u8, 66u8, 108u8, 117u8, 101u8]);
}

proof fn lemma_name_bytes_39()
    ensures
        colordef_spec(39).0.spec_bytes() == seq![77u8, 105u8, 100u8, 110u8, 105u8, 103u8, 104u8, 116u8, 66u8, 108u8, 117u8, 101u8],
{
    reveal_strlit("MidnightBlue");
    assert(vstd::string::is_ascii("MidnightBlue"));
    vstd::string::is_ascii_spec_bytes("MidnightBlue");
    assert("MidnightBlue".spec_bytes() =~= seq![77u8, 105u8, 100u8, 110u8, 105u8, 103u8, 104u8, 116u8, 66u8, 108u8, 117u8, 101u8]);
}

proof fn lemma_name_bytes_40()
    ensures
        colordef_spec(40).0.spec_bytes() == seq![78u8, 97u8, 118u8, 121u8, 66u8, 108u8, 117u8, 101u8],
{
    reveal_strlit("NavyBlue");
    assert(vstd::string::is_ascii("NavyBlue"));
    vstd::string::is_ascii_spec_bytes("NavyBlue");
    assert("NavyBlue".spec_bytes() =~= seq![78u8, 97u8, 118u8, 121u8, 66u8, 108u8, 117u8, 101u8]);
}

proof fn lemma_name_bytes_41()
    ensures
        colordef_spec(41).0.spec_bytes() == seq![82u8, 111u8, 121u8, 97u8, 108u8, 66u8, 108u8, 117u8, 101u8],
{
    reveal_strlit("RoyalBlue");
    assert(vstd::string::is_ascii("RoyalBlue"));
    vstd::string::is_ascii_spec_bytes("RoyalBlue");
    assert("RoyalBlue".spec_bytes() =~= seq![82u8, 111u8, 121u8, 97u8, 108u8, 66u8, 108u8, 117u8, 101u8]);
}

proof fn lemma_name_bytes_42()
    ensures
        colordef_spec(42).0.spec_bytes() == seq![66u8, 108u8, 117u8, 101u8],
{
    reveal_strlit("Blue");
    assert(vstd::string::is_ascii("Blue"));
    vstd::string::is_ascii_spec_bytes("Blue");
    assert("Blue".spec_bytes() =~= seq![66u8, 108u8, 117u8, 101u8]);
}

proof fn lemma_name_bytes_43()
    ensures
        colordef_spec(43).0.spec_bytes() == seq![67u8, 101u8, 114u8, 117u8, 108u8, 101u8, 97u8, 110u8],
{
    reveal_strlit("Cerulean");
    assert(vstd::string::is_ascii("Cerulean"));
    vstd::string::is_ascii_spec_bytes("Cerulean");
    assert("Cerulean".spec_bytes() =~= seq![67u8, 101u8, 114u8, 117u8, 108u8, 101u8, 97u8, 110u8]);
}

proof fn lemma_name_bytes_44()
    ensures
        colordef_spec(44).0.spec_bytes() == seq![67u8, 121u8, 97u8, 110u8],
{
    reveal_strlit("Cyan");
    assert(vstd::string::is_ascii("Cyan"));
    vstd::string::is_ascii_spec_bytes("Cyan");
    assert("Cyan".spec_bytes() =~= seq![67u8, 121u8, 97u8, 110u8]);
}

proof fn lemma_name_bytes_45()
    ensures
        colordef_spec(45).0.spec_bytes() == seq![80u8, 114u8, 111u8, 99u8, 101u8, 115u8, 115u8, 66u8, 108u8, 117u8, 101u8],
{
    reveal_strlit("ProcessBlue");
    assert(vstd::string::is_ascii("ProcessBlue"));
    vstd::string::is_ascii_spec_bytes("ProcessBlue");
    assert("ProcessBlue".spec_bytes() =~= seq![80u8, 114u8, 111u8, 99u8, 101u8, 115u8, 115u8, 66u8, 108u8, 117u8, 101u8]);
}

proof fn lemma_name_bytes_46()
    ensures
        colordef_spec(46).0.spec_bytes() == seq![83u8, 107u8, 121u8, 66u8, 108u8, 117u8, 101u8],
{
    reveal_strlit("SkyBlue");
    assert(vstd::string::is_ascii("SkyBlue"));
    vstd::string::is_ascii_spec_bytes("SkyBlue");
    assert("SkyBlue".spec_bytes() =~= seq![83u8, 107u8, 121u8, 66u8, 108u8, 117u8, 101u8]);
}

proof fn lemma_name_bytes_47()
    ensures
        colordef_spec(47).0.spec_bytes() == seq![84u8, 117u8, 114u8, 113u8, 117u8, 111u8, 105u8, 115u8, 101u8],
{
    reveal_strlit("Turquoise");
    assert(vstd::string::is_ascii("Turquoise"));
    vstd::string::is_ascii_spec_bytes("Turquoise");
    assert("Turquoise".spec_bytes() =~= seq![84u8, 117u8, 114u8, 113u8, 117u8, 111u8, 105u8, 115u8, 101u8]);
}

proof fn lemma_name_bytes_48()
    ensures
        colordef_spec(48).0.spec_bytes() == seq![84u8, 101u8, 97u8, 108u8, 66u8, 108u8, 117u8, 101u8],
{
    reveal_strlit("TealBlue");
    assert(vstd::string::is_ascii("TealBlue"));
    vstd::string::is_ascii_spec_bytes("TealBlue");
    assert("TealBlue".spec_bytes() =~= seq![84u8, 101u8, 97u8, 108u8, 66u8, 108u8, 117u8, 101u8]);
}

proof fn lemma_name_bytes_49()
    ensures
        colordef_spec(49).0.spec_bytes() == seq![65u8, 113u8, 117u8, 97u8, 109u8, 97u8, 114u8, 105u8, 110u8, 101u8],
{
    reveal_strlit("Aquamarine");
    assert(vstd::string::is_ascii("Aquamarine"));
    vstd::string::is_ascii_spec_bytes("Aquamarine");
    assert("Aquamarine".spec_bytes() =~= seq![65u8, 113u8, 117u8, 97u8, 109u8, 97u8, 114u8, 105u8, 110u8, 101u8]);
}

proof fn lemma_name_bytes_50()
    ensures
        colordef_spec(50).0.spec_bytes() == seq![66u8, 108u8, 117u8, 101u8, 71u8, 114u8, 101u8, 101u8, 110u8],
{
    reveal_strlit("BlueGreen");
    assert(vstd::string::is_ascii("BlueGreen"));
    vstd::string::is_ascii_spec_bytes("BlueGreen");
    assert("BlueGreen".spec_bytes() =~= seq![66u8, 108u8, 117u8, 101u8, 71u8, 114u8, 101u8, 101u8, 110u8]);
}

proof fn lemma_name_bytes_51()
    ensures
        colordef_spec(51).0.spec_bytes() == seq![69u8, 109u8, 101u8, 114u8, 97u8, 108u8, 100u8],
{
    reveal_strlit("Emerald");
    assert(vstd::string::is_ascii("Emerald"));
    vstd::string::is_ascii_spec_bytes("Emerald");
    assert("Emerald".spec_bytes() =~= seq![69u8, 109u8, 101u8, 114u8, 97u8, 108u8, 100u8]);
}

proof fn lemma_name_bytes_52()
    ensures
        colordef_spec(52).0.spec_bytes() == seq![74u8, 117u8, 110u8, 103u8, 108u8, 101u8, 71u8, 114u8, 101u8, 101u8, 110u8],
{
    reveal_strlit("JungleGreen");
    assert(vstd::string::is_ascii("JungleGreen"));
    vstd::string::is_ascii_spec_bytes("JungleGreen");
    assert("JungleGreen".spec_bytes() =~= seq![74u8, 117u8, 110u8, 103u8, 108u8, 101u8, 71u8, 114u8, 101u8, 101u8, 110u8]);
}

proof fn lemma_name_bytes_53()
    ensures
        colordef_spec(53).0.spec_bytes() == seq![83u8, 101u8, 97u8, 71u8, 114u8, 101u8, 101u8, 110u8],
{
    reveal_strlit("SeaGreen");
    assert(vstd::string::is_ascii("SeaGreen"));
    vstd::string::is_ascii_spec_bytes("SeaGreen");
    assert("SeaGreen".spec_bytes() =~= seq![83u8, 101u8, 97u8, 71u8, 114u8, 101u8, 101u8, 110u8]);
}

proof fn lemma_name_bytes_54()
    ensures
        colordef_spec(54).0.spec_bytes() == seq![71u8, 114u8, 101u8, 101u8, 110u8],
{
    reveal_strlit("Green");
    assert(vstd::string::is_ascii("Green"));
    vstd::string::is_ascii_spec_bytes("Green");
    assert("Green".spec_bytes() =~= seq![71u8, 114u8, 101u8, 101u8, 110u8]);
}

proof fn lemma_name_bytes_55()
    ensures
        colordef_spec(55).0.spec_bytes() == seq![70u8, 111u8, 114u8, 101u8, 115u8, 116u8, 71u8, 114u8, 101u8, 101u8, 110u8],
{
    reveal_strlit("ForestGreen");
    assert(vstd::string::is_ascii("ForestGreen"));
    vstd::string::is_ascii_spec_bytes("ForestGreen");
    assert("ForestGreen".spec_bytes() =~= seq![70u8, 111u8, 114u8, 101u8, 115u8, 116u8, 71u8, 114u8, 101u8, 101u8, 110u8]);
}

proof fn lemma_name_bytes_56()
    ensures
        colordef_spec(56).0.spec_bytes() == seq![80u8, 105u8, 110u8, 101u8, 71u8, 114u8, 101u8, 101u8, 110u8],
{
    reveal_strlit("PineGreen");
    assert(vstd::string::is_ascii("PineGreen"));
    vstd::string::is_ascii_spec_bytes("PineGreen");
    assert("PineGreen".spec_bytes() =~= seq![80u8, 105u8, 110u8, 101u8, 71u8, 114u8, 101u8, 101u8, 110u8]);
}

proof fn lemma_name_bytes_57()
    ensures
        colordef_spec(57).0.spec_bytes() == seq![76u8, 105u8, 109u8, 101u8, 71u8, 114u8, 101u8, 101u8, 110u8],
{
    reveal_strlit("LimeGreen");
    assert(vstd::string::is_ascii("LimeGreen"));
    vstd::string::is_ascii_spec_bytes("LimeGreen");
    assert("LimeGreen".spec_bytes() =~= seq![76u8, 105u8, 109u8, 101u8, 71u8, 114u8, 101u8, 101u8, 110u8]);
}

proof fn lemma_name_bytes_58()
    ensures
        colordef_spec(58).0.spec_bytes() == seq![89u8, 101u8, 108u8, 108u8, 111u8, 119u8, 71u8, 114u8, 101u8, 101u8, 110u8],
{
    reveal_strlit("YellowGreen");
    assert(vstd::string::is_ascii("YellowGreen"));
    vstd::string::is_ascii_spec_bytes("YellowGreen");
    assert("YellowGreen".spec_bytes() =~= seq![89u8, 101u8, 108u8, 108u8, 111u8, 119u8, 71u8, 114u8, 101u8, 101u8, 110u8]);
}

proof fn lemma_name_bytes_59()
    ensures
        colordef_spec(59).0.spec_bytes() == seq![83u8, 112u8, 114u8, 105u8, 110u8, 103u8, 71u8, 114u8, 101u8, 101u8, 110u8],
{
    reveal_strlit("SpringGreen");
    assert(vstd::string::is_ascii("SpringGreen"));
    vstd::string::is_ascii_spec_bytes("SpringGreen");
    assert("SpringGreen".spec_bytes() =~= seq![83u8, 112u8, 114u8, 105u8, 110u8, 103u8, 71u8, 114u8, 101u8, 101u8, 110u8]);
}

proof fn lemma_name_bytes_60()
    ensures
        colordef_spec(60).0.spec_bytes() == seq![79u8, 108u8, 105u8, 118u8, 101u8, 71u8, 114u8, 101u8, 101u8, 110u8],
{
    reveal_strlit("OliveGreen");
    assert(vstd::string::is_ascii("OliveGreen"));
    vstd::string::is_ascii_spec_bytes("OliveGreen");
    assert("OliveGreen".spec_bytes() =~= seq![79u8, 108u8, 105u8, 118u8, 101u8, 71u8, 114u8, 101u8, 101u8, 110u8]);
}

proof fn lemma_name_bytes_61()
    ensures
        colordef_spec(61).0.spec_bytes() == seq![82u8, 97u8, 119u8, 83u8, 105u8, 101u8, 110u8, 110u8, 97u8],
{
    reveal_strlit("RawSienna");
    assert(vstd::string::is_ascii("RawSienna"));
    vstd::string::is_ascii_spec_bytes("RawSienna");
    assert("RawSienna".spec_bytes() =~= seq![82u8, 97u8, 119u8, 83u8, 105u8, 101u8, 110u8, 110u8, 97u8]);
}

proof fn lemma_name_bytes_62()
    ensures
        colordef_spec(62).0.spec_bytes() == seq![83u8, 101u8, 112u8, 105u8, 97u8],
{
    reveal_strlit("Sepia");
    assert(vstd::string::is_ascii("Sepia"));
    vstd::string::is_ascii_spec_bytes("Sepia");
    assert("Sepia".spec_bytes() =~= seq![83u8, 101u8, 112u8, 105u8, 97u8]);
}

proof fn lemma_name_bytes_63()
    ensures
        colordef_spec(63).0.spec_bytes() == seq![66u8, 114u8, 111u8, 119u8, 110u8],
{
    reveal_strlit("Brown");
    assert(vstd::string::is_ascii("Brown"));
    vstd::string::is_ascii_spec_bytes("Brown");
    assert("Brown".spec_bytes() =~= seq![66u8, 114u8, 111u8, 119u8, 110u8]);
}

proof fn lemma_name_bytes_64()
    ensures
        colordef_spec(64).0.spec_bytes() == seq![84u8, 97u8, 110u8],
{
    reveal_strlit("Tan");
    assert(vstd::string::is_ascii("Tan"));
    vstd::string::is_ascii_spec_bytes("Tan");
    assert("Tan".spec_bytes() =~= seq![84u8, 97u8, 110u8]);
}

proof fn lemma_name_bytes_65()
    ensures
        colordef_spec(65).0.spec_bytes() == seq![71u8, 114u8, 97u8, 121u8],
{
    reveal_strlit("Gray");
    assert(vstd::string::is_ascii("Gray"));
    vstd::string::is_ascii_spec_bytes("Gray");
    assert("Gray".spec_bytes() =~= seq![71u8, 114u8, 97u8, 121u8]);
}

proof fn lemma_name_bytes_66()
    ensures
        colordef_spec(66).0.spec_bytes() == seq![66u8, 108u8, 97u8, 99u8, 107u8],
{
    reveal_strlit("Black");
    assert(vstd::string::is_ascii("Black"));
    vstd::string::is_ascii_spec_bytes("Black");
    assert("Black".spec_bytes() =~= seq![66u8, 108u8, 97u8, 99u8, 107u8]);
}

proof fn lemma_name_bytes_67()
    ensures
        colordef_spec(67).0.spec_bytes() == seq![87u8, 104u8, 105u8, 116u8, 101u8],
{
    reveal_strlit("White");
    assert(vstd::string::is_ascii("White"));
    vstd::string::is_ascii_spec_bytes("White");
    assert("White".spec_bytes() =~= seq![87u8, 104u8, 105u8, 116u8, 101u8]);
}

/// The summary of the name of each entry.
proof fn lemma_entry_sig(i: int)
    requires
        0 <= i < 68,
    ensures
        name_sig(colordef_spec(i).0.spec_bytes()) == sig_of_entry(i),
{
    if i == 0 {
        lemma_name_bytes_0();
    } else if i == 1 {
        lemma_name_bytes_1();
    } else if i == 2 {
        lemma_name_bytes_2();
    } else if i == 3 {
        lemma_name_bytes_3();
    } else if i == 4 {
        lemma_name_bytes_4();
    } else if i == 5 {
        lemma_name_bytes_5();
    } else if i == 6 {
        lemma_name_bytes_6();
    } else if i == 7 {
        lemma_name_bytes_7();
    } else if i == 8 {
        lemma_name_bytes_8();
    } else if i == 9 {
        lemma_name_bytes_9();
    } else if i == 10 {
        lemma_name_bytes_10();
    } else if i == 11 {
        lemma_name_bytes_11();
    } else if i == 12 {
        lemma_name_bytes_12();
    } else if i == 13 {
        lemma_name_bytes_13();
    } else if i == 14 {
        lemma_name_bytes_14();
    } else if i == 15 {
        lemma_name_bytes_15();
    } else if i == 16 {
        lemma_name_bytes_16();
    } else if i == 17 {
        lemma_name_bytes_17();
    } else if i == 18 {
        lemma_name_bytes_18();
    } else if i == 19 {
        lemma_name_bytes_19();
    } else if i == 20 {
        lemma_name_bytes_20();
    } else if i == 21 {
        lemma_name_bytes_21();
    } else if i == 22 {
        lemma_name_bytes_22();
    } else if i == 23 {
        lemma_name_bytes_23();
    } else if i == 24 {
        lemma_name_bytes_24();
    } else if i == 25 {
        lemma_name_bytes_25();
    } else if i == 26 {
        lemma_name_bytes_26();
    } else if i == 27 {
        lemma_name_bytes_27();
    } else if i == 28 {
        lemma_name_bytes_28();
    } else if i == 29 {
        lemma_name_bytes_29();
    } else if i == 30 {
        lemma_name_bytes_30();
    } else if i == 31 {
        lemma_name_bytes_31();
    } else if i == 32 {
        lemma_name_bytes_32();
    } else if i == 33 {
        lemma_name_bytes_33();
    } else if i == 34 {
        lemma_name_bytes_34();
    } else if i == 35 {
        lemma_name_bytes_35();
    } else if i == 36 {
        lemma_name_bytes_36();
    } else if i == 37 {
        lemma_name_bytes_37();
    } else if i == 38 {
        lemma_name_bytes_38();
    } else if i == 39 {
        lemma_name_bytes_39();
    } else if i == 40 {
        lemma_name_bytes_40();
    } else if i == 41 {
        lemma_name_bytes_41();
    } else if i == 42 {
        lemma_name_bytes_42();
    } else if i == 43 {
        lemma_name_bytes_43();
    } else if i == 44 {
        lemma_name_bytes_44();
    } else if i == 45 {
        lemma_name_bytes_45();
    } else if i == 46 {
        lemma_name_bytes_46();
    } else if i == 47 {
        lemma_name_bytes_47();
    } else if i == 48 {
        lemma_name_bytes_48();
    } else if i == 49 {
        lemma_name_bytes_49();
    } else if i == 50 {
        lemma_name_bytes_50();
    } else if i == 51 {
        lemma_name_bytes_51();
    } else if i == 52 {
        lemma_name_bytes_52();
    } else if i == 53 {
        lemma_name_bytes_53();
    } else if i == 54 {
        lemma_name_bytes_54();
    } else if i == 55 {
        lemma_name_bytes_55();
    } else if i == 56 {
        lemma_name_bytes_56();
    } else if i == 57 {
        lemma_name_bytes_57();
    } else if i == 58 {
        lemma_name_bytes_58();
    } else if i == 59 {
        lemma_name_bytes_59();
    } else if i == 60 {
        lemma_name_bytes_60();
    } else if i == 61 {
        lemma_name_bytes_61();
    } else if i == 62 {
        lemma_name_bytes_62();
    } else if i == 63 {
        lemma_name_bytes_63();
    } else if i == 64 {
        lemma_name_bytes_64();
    } else if i == 65 {
        lemma_name_bytes_65();
    } else if i == 66 {
        lemma_name_bytes_66();
    } else if i == 67 {
        lemma_name_bytes_67();
    }
}

/// Past entries whose names differ from `name`, the lookup stops at the entry named `name`.
proof fn lemma_walk(name: Seq<u8>, i: int, k: int)
    requires
        0 <= i <= k < 68,
        colordef_spec(k).0.spec_bytes() == name,
        forall|j: int| i <= j < k ==> #[trigger] colordef_spec(j).0.spec_bytes() != name,
    ensures
        named_color_index(name, i) == Some(k),
    decreases k - i,
{
    if i < k {
        lemma_walk(name, i + 1, k);
    }
}

/// The lookup of the name of entry `k` finds entry `k`: no earlier name is the same.
proof fn lemma_entry_found(k: int)
    requires
        0 <= k < 68,
    ensures
        named_color_index(colordef_spec(k).0.spec_bytes(), 0) == Some(k),
{
    let name = colordef_spec(k).0.spec_bytes();
    lemma_entry_sig(k);
    lemma_sig_entry(k);
    assert forall|j: int| 0 <= j < k implies #[trigger] colordef_spec(j).0.spec_bytes() != name by {
        lemma_entry_sig(j);
        lemma_sig_entry(j);
    }
    lemma_walk(name, 0, k);
}

proof fn lemma_color_0()
    ensures
        spec_named_color(seq![71u8, 114u8, 101u8, 101u8, 110u8, 89u8, 101u8, 108u8, 108u8, 111u8, 119u8]) == Some(NamedColor::Cmyk(15u8, 0u8, 69u8, 0u8)),
{
    lemma_entry_found(0);
    lemma_name_bytes_0();
}

proof fn lemma_color_1()
    ensures
        spec_named_color(seq![89u8, 101u8, 108u8, 108u8, 111u8, 119u8]) == Some(NamedColor::Cmyk(0u8, 0u8, 100u8, 0u8)),
{
    lemma_entry_found(1);
    lemma_name_bytes_1();
}

proof fn lemma_color_2()
    ensures
        spec_named_color(seq![71u8, 111u8, 108u8, 100u8, 101u8, 110u8, 114u8, 111u8, 100u8]) == Some(NamedColor::Cmyk(0u8, 10u8, 84u8, 0u8)),
{
    lemma_entry_found(2);
    lemma_name_bytes_2();
}

proof fn lemma_color_3()
    ensures
        spec_named_color(seq![68u8, 97u8, 110u8, 100u8, 101u8, 108u8, 105u8, 111u8, 110u8]) == Some(NamedColor::Cmyk(0u8, 29u8, 84u8, 0u8)),
{
    lemma_entry_found(3);
    lemma_name_bytes_3();
}

proof fn lemma_color_4()
    ensures
        spec_named_color(seq![65u8, 112u8, 114u8, 105u8, 99u8, 111u8, 116u8]) == Some(NamedColor::Cmyk(0u8, 32u8, 52u8, 0u8)),
{
    lemma_entry_found(4);
    lemma_name_bytes_4();
}

proof fn lemma_color_5()
    ensures
        spec_named_color(seq![80u8, 101u8, 97u8, 99u8, 104u8]) == Some(NamedColor::Cmyk(0u8, 50u8, 70u8, 0u8)),
{
    lemma_entry_found(5);
    lemma_name_bytes_5();
}

proof fn lemma_color_6()
    ensures
        spec_named_color(seq![77u8, 101u8, 108u8, 111u8, 110u8]) == Some(NamedColor::Cmyk(0u8, 46u8, 50u8, 0u8)),
{
    lemma_entry_found(6);
    lemma_name_bytes_6();
}

proof fn lemma_color_7()
    ensures
        spec_named_color(seq![89u8, 101u8, 108u8, 108u8, 111u8, 119u8, 79u8, 114u8, 97u8, 110u8, 103u8, 101u8]) == Some(NamedColor::Cmyk(0u8, 42u8, 100u8, 0u8)),
{
    lemma_entry_found(7);
    lemma_name_bytes_7();
}

proof fn lemma_color_8()
    ensures
        spec_named_color(seq![79u8, 114u8, 97u8, 110u8, 103u8, 101u8]) == Some(NamedColor::Cmyk(0u8, 61u8, 87u8, 0u8)),
{
    lemma_entry_found(8);
    lemma_name_bytes_8();
}

proof fn lemma_color_9()
    ensures
        spec_named_color(seq![66u8, 117u8, 114u8, 110u8, 116u8, 79u8, 114u8, 97u8, 110u8, 103u8, 101u8]) == Some(NamedColor::Cmyk(0u8, 51u8, 100u8, 0u8)),
{
    lemma_entry_found(9);
    lemma_name_bytes_9();
}

proof fn lemma_color_10()
    ensures
        spec_named_color(seq![66u8, 105u8, 116u8, 116u8, 101u8, 114u8, 115u8, 119u8, 101u8, 101u8, 116u8]) == Some(NamedColor::Cmyk(0u8, 75u8, 100u8, 24u8)),
{
    lemma_entry_found(10);
    lemma_name_bytes_10();
}

proof fn lemma_color_11()
    ensures
        spec_named_color(seq![82u8, 101u8, 100u8, 79u8, 114u8, 97u8, 110u8, 103u8, 101u8]) == Some(NamedColor::Cmyk(0u8, 77u8, 87u8, 0u8)),
{
    lemma_entry_found(11);
    lemma_name_bytes_11();
}

proof fn lemma_color_12()
    ensures
        spec_named_color(seq![77u8, 97u8, 104u8, 111u8, 103u8, 97u8, 110u8, 121u8]) == Some(NamedColor::Cmyk(0u8, 85u8, 87u8, 35u8)),
{
    lemma_entry_found(12);
    lemma_name_bytes_12();
}

proof fn lemma_color_13()
    ensures
        spec_named_color(seq![77u8, 97u8, 114u8, 111u8, 111u8, 110u8]) == Some(NamedColor::Cmyk(0u8, 87u8, 68u8, 32u8)),
{
    lemma_entry_found(13);
    lemma_name_bytes_13();
}

proof fn lemma_color_14()
    ensures
        spec_named_color(seq![66u8, 114u8, 105u8, 99u8, 107u8, 82u8, 101u8, 100u8]) == Some(NamedColor::Cmyk(0u8, 89u8, 94u8, 28u8)),
{
    lemma_entry_found(14);
    lemma_name_bytes_14();
}

proof fn lemma_color_15()
    ensures
        spec_named_color(seq![82u8, 101u8, 100u8]) == Some(NamedColor::Cmyk(0u8, 100u8, 100u8, 0u8)),
{
    lemma_entry_found(15);
    lemma_name_bytes_15();
}

proof fn lemma_color_16()
    ensures
        spec_named_color(seq![79u8, 114u8, 97u8, 110u8, 103u8, 101u8, 82u8, 101u8, 100u8]) == Some(NamedColor::Cmyk(0u8, 100u8, 50u8, 0u8)),
{
    lemma_entry_found(16);
    lemma_name_bytes_16();
}

proof fn lemma_color_17()
    ensures
        spec_named_color(seq![82u8, 117u8, 98u8, 105u8, 110u8, 101u8, 82u8, 101u8, 100u8]) == Some(NamedColor::Cmyk(0u8, 100u8, 13u8, 0u8)),
{
    lemma_entry_found(17);
    lemma_name_bytes_17();
}

proof fn lemma_color_18()
    ensures
        spec_named_color(seq![87u8, 105u8, 108u8, 100u8, 83u8, 116u8, 114u8, 97u8, 119u8, 98u8, 101u8, 114u8, 114u8, 121u8]) == Some(NamedColor::Cmyk(0u8, 96u8, 39u8, 0u8)),
{
    lemma_entry_found(18);
    lemma_name_bytes_18();
}

proof fn lemma_color_19()
    ensures
        spec_named_color(seq![83u8, 97u8, 108u8, 109u8, 111u8, 110u8]) == Some(NamedColor::Cmyk(0u8, 53u8, 38u8, 0u8)),
{
    lemma_entry_found(19);
    lemma_name_bytes_19();
}

proof fn lemma_color_20()
    ensures
        spec_named_color(seq![67u8, 97u8, 114u8, 110u8, 97u8, 116u8, 105u8, 111u8, 110u8, 80u8, 105u8, 110u8, 107u8]) == Some(NamedColor::Cmyk(0u8, 63u8, 0u8, 0u8)),
{
    lemma_entry_found(20);
    lemma_name_bytes_20();
}

proof fn lemma_color_21()
    ensures
        spec_named_color(seq![77u8, 97u8, 103u8, 101u8, 110u8, 116u8, 97u8]) == Some(NamedColor::Cmyk(0u8, 100u8, 0u8, 0u8)),
{
    lemma_entry_found(21);
    lemma_name_bytes_21();
}

proof fn lemma_color_22()
    ensures
        spec_named_color(seq![86u8, 105u8, 111u8, 108u8, 101u8, 116u8, 82u8, 101u8, 100u8]) == Some(NamedColor::Cmyk(0u8, 81u8, 0u8, 0u8)),
{
    lemma_entry_found(22);
    lemma_name_bytes_22();
}

proof fn lemma_color_23()
    ensures
        spec_named_color(seq![82u8, 104u8, 111u8, 100u8, 97u8, 109u8, 105u8, 110u8, 101u8]) == Some(NamedColor::Cmyk(0u8, 82u8, 0u8, 0u8)),
{
    lemma_entry_found(23);
    lemma_name_bytes_23();
}

proof fn lemma_color_24()
    ensures
        spec_named_color(seq![77u8, 117u8, 108u8, 98u8, 101u8, 114u8, 114u8, 121u8]) == Some(NamedColor::Cmyk(34u8, 90u8, 0u8, 2u8)),
{
    lemma_entry_found(24);
    lemma_name_bytes_24();
}

proof fn lemma_color_25()
    ensures
        spec_named_color(seq![82u8, 101u8, 100u8, 86u8, 105u8, 111u8, 108u8, 101u8, 116u8]) == Some(NamedColor::Cmyk(7u8, 90u8, 0u8, 34u8)),
{
    lemma_entry_found(25);
    lemma_name_bytes_25();
}

proof fn lemma_color_26()
    ensures
        spec_named_color(seq![70u8, 117u8, 99u8, 104u8, 115u8, 105u8, 97u8]) == Some(NamedColor::Cmyk(47u8, 91u8, 0u8, 8u8)),
{
    lemma_entry_found(26);
    lemma_name_bytes_26();
}

proof fn lemma_color_27()
    ensures
        spec_named_color(seq![76u8, 97u8, 118u8, 101u8, 110u8, 100u8, 101u8, 114u8]) == Some(NamedColor::Cmyk(0u8, 48u8, 0u8, 0u8)),
{
    lemma_entry_found(27);
    lemma_name_bytes_27();
}

proof fn lemma_color_28()
    ensures
        spec_named_color(seq![84u8, 104u8, 105u8, 115u8, 116u8, 108u8, 101u8]) == Some(NamedColor::Cmyk(12u8, 59u8, 0u8, 0u8)),
{
    lemma_entry_found(28);
    lemma_name_bytes_28();
}

proof fn lemma_color_29()
    ensures
        spec_named_color(seq![79u8, 114u8, 99u8, 104u8, 105u8, 100u8]) == Some(NamedColor::Cmyk(32u8, 64u8, 0u8, 0u8)),
{
    lemma_entry_found(29);
    lemma_name_bytes_29();
}

proof fn lemma_color_30()
    ensures
        spec_named_color(seq![68u8, 97u8, 114u8, 107u8, 79u8, 114u8, 99u8, 104u8, 105u8, 100u8]) == Some(NamedColor::Cmyk(40u8, 80u8, 20u8, 0u8)),
{
    lemma_entry_found(30);
    lemma_name_bytes_30();
}

proof fn lemma_color_31()
    ensures
        spec_named_color(seq![80u8, 117u8, 114u8, 112u8, 108u8, 101u8]) == Some(NamedColor::Cmyk(45u8, 86u8, 0u8, 0u8)),
{
    lemma_entry_found(31);
    lemma_name_bytes_31();
}

proof fn lemma_color_32()
    ensures
        spec_named_color(seq![80u8, 108u8, 117u8, 109u8]) == Some(NamedColor::Cmyk(50u8, 100u8, 0u8, 0u8)),
{
    lemma_entry_found(32);
    lemma_name_bytes_32();
}

proof fn lemma_color_33()
    ensures
        spec_named_color(seq![86u8, 105u8, 111u8, 108u8, 101u8, 116u8]) == Some(NamedColor::Cmyk(79u8, 88u8, 0u8, 0u8)),
{
    lemma_entry_found(33);
    lemma_name_bytes_33();
}

proof fn lemma_color_34()
    ensures
        spec_named_color(seq![82u8, 111u8, 121u8, 97u8, 108u8, 80u8, 117u8, 114u8, 112u8, 108u8, 101u8]) == Some(NamedColor::Cmyk(75u8, 90u8, 0u8, 0u8)),
{
    lemma_entry_found(34);
    lemma_name_bytes_34();
}

proof fn lemma_color_35()
    ensures
        spec_named_color(seq![66u8, 108u8, 117u8, 101u8, 86u8, 105u8, 111u8, 108u8, 101u8, 116u8]) == Some(NamedColor::Cmyk(86u8, 91u8, 0u8, 4u8)),
{
    lemma_entry_found(35);
    lemma_name_bytes_35();
}

proof fn lemma_color_36()
    ensures
        spec_named_color(seq![80u8, 101u8, 114u8, 105u8, 119u8, 105u8, 110u8, 107u8, 108u8, 101u8]) == Some(NamedColor::Cmyk(57u8, 55u8, 0u8, 0u8)),
{
    lemma_entry_found(36);
    lemma_name_bytes_36();
}

proof fn lemma_color_37()
    ensures
        spec_named_color(seq![67u8, 97u8, 100u8, 101u8, 116u8, 66u8, 108u8, 117u8, 101u8]) == Some(NamedColor::Cmyk(62u8, 57u8, 23u8, 0u8)),
{
    lemma_entry_found(37);
    lemma_name_bytes_37();
}

proof fn lemma_color_38()
    ensures
        spec_named_color(seq![67u8, 111u8, 114u8, 110u8, 102u8, 108u8, 111u8, 119u8, 101u8, 114u8, 66u8, 108u8, 117u8, 101u8]) == Some(NamedColor::Cmyk(65u8, 13u8, 0u8, 0u8)),
{
    lemma_entry_found(38);
    lemma_name_bytes_38();
}

proof fn lemma_color_39()
    ensures
        spec_named_color(seq![77u8, 105u8, 100u8, 110u8, 105u8, 103u8, 104u8, 116u8, 66u8, 108u8, 117u8, 101u8]) == Some(NamedColor::Cmyk(98u8, 13u8, 0u8, 43u8)),
{
    lemma_entry_found(39);
    lemma_name_bytes_39();
}

proof fn lemma_color_40()
    ensures
        spec_named_color(seq![78u8, 97u8, 118u8, 121u8, 66u8, 108u8, 117u8, 101u8]) == Some(NamedColor::Cmyk(94u8, 54u8, 0u8, 0u8)),
{
    lemma_entry_found(40);
    lemma_name_bytes_40();
}

proof fn lemma_color_41()
    ensures
        spec_named_color(seq![82u8, 111u8, 121u8, 97u8, 108u8, 66u8, 108u8, 117u8, 101u8]) == Some(NamedColor::Cmyk(100u8, 50u8, 0u8, 0u8)),
{
    lemma_entry_found(41);
    lemma_name_bytes_41();
}

proof fn lemma_color_42()
    ensures
        spec_named_color(seq![66u8, 108u8, 117u8, 101u8]) == Some(NamedColor::Cmyk(100u8, 100u8, 0u8, 0u8)),
{
    lemma_entry_found(42);
    lemma_name_bytes_42();
}

proof fn lemma_color_43()
    ensures
        spec_named_color(seq![67u8, 101u8, 114u8, 117u8, 108u8, 101u8, 97u8, 110u8]) == Some(NamedColor::Cmyk(94u8, 11u8, 0u8, 0u8)),
{
    lemma_entry_found(43);
    lemma_name_bytes_43();
}

proof fn lemma_color_44()
    ensures
        spec_named_color(seq![67u8, 121u8, 97u8, 110u8]) == Some(NamedColor::Cmyk(100u8, 0u8, 0u8, 0u8)),
{
    lemma_entry_found(44);
    lemma_name_bytes_44();
}

proof fn lemma_color_45()
    ensures
        spec_named_color(seq![80u8, 114u8, 111u8, 99u8, 101u8, 115u8, 115u8, 66u8, 108u8, 117u8, 101u8]) == Some(NamedColor::Cmyk(96u8, 0u8, 0u8, 0u8)),
{
    lemma_entry_found(45);
    lemma_name_bytes_45();
}

proof fn lemma_color_46()
    ensures
        spec_named_color(seq![83u8, 107u8, 121u8, 66u8, 108u8, 117u8, 101u8]) == Some(NamedColor::Cmyk(62u8, 0u8, 12u8, 0u8)),
{
    lemma_entry_found(46);
    lemma_name_bytes_46();
}

proof fn lemma_color_47()
    ensures
        spec_named_color(seq![84u8, 117u8, 114u8, 113u8, 117u8, 111u8, 105u8, 115u8, 101u8]) == Some(NamedColor::Cmyk(85u8, 0u8, 20u8, 0u8)),
{
    lemma_entry_found(47);
    lemma_name_bytes_47();
}

proof fn lemma_color_48()
    ensures
        spec_named_color(seq![84u8, 101u8, 97u8, 108u8, 66u8, 108u8, 117u8, 101u8]) == Some(NamedColor::Cmyk(86u8, 0u8, 34u8, 2u8)),
{
    lemma_entry_found(48);
    lemma_name_bytes_48();
}

proof fn lemma_color_49()
    ensures
        spec_named_color(seq![65u8, 113u8, 117u8, 97u8, 109u8, 97u8, 114u8, 105u8, 110u8, 101u8]) == Some(NamedColor::Cmyk(82u8, 0u8, 30u8, 0u8)),
{
    lemma_entry_found(49);
    lemma_name_bytes_49();
}

proof fn lemma_color_50()
    ensures
        spec_named_color(seq![66u8, 108u8, 117u8, 101u8, 71u8, 114u8, 101u8, 101u8, 110u8]) == Some(NamedColor::Cmyk(85u8, 0u8, 33u8, 0u8)),
{
    lemma_entry_found(50);
    lemma_name_bytes_50();
}

proof fn lemma_color_51()
    ensures
        spec_named_color(seq![69u8, 109u8, 101u8, 114u8, 97u8, 108u8, 100u8]) == Some(NamedColor::Cmyk(100u8, 0u8, 50u8, 0u8)),
{
    lemma_entry_found(51);
    lemma_name_bytes_51();
}

proof fn lemma_color_52()
    ensures
        spec_named_color(seq![74u8, 117u8, 110u8, 103u8, 108u8, 101u8, 71u8, 114u8, 101u8, 101u8, 110u8]) == Some(NamedColor::Cmyk(99u8, 0u8, 52u8, 0u8)),
{
    lemma_entry_found(52);
    lemma_name_bytes_52();
}

proof fn lemma_color_53()
    ensures
        spec_named_color(seq![83u8, 101u8, 97u8, 71u8, 114u8, 101u8, 101u8, 110u8]) == Some(NamedColor::Cmyk(69u8, 0u8, 50u8, 0u8)),
{
    lemma_entry_found(53);
    lemma_name_bytes_53();
}

proof fn lemma_color_54()
    ensures
        spec_named_color(seq![71u8, 114u8, 101u8, 101u8, 110u8]) == Some(NamedColor::Cmyk(100u8, 0u8, 100u8, 0u8)),
{
    lemma_entry_found(54);
    lemma_name_bytes_54();
}

proof fn lemma_color_55()
    ensures
        spec_named_color(seq![70u8, 111u8, 114u8, 101u8, 115u8, 116u8, 71u8, 114u8, 101u8, 101u8, 110u8]) == Some(NamedColor::Cmyk(91u8, 0u8, 88u8, 12u8)),
{
    lemma_entry_found(55);
    lemma_name_bytes_55();
}

proof fn lemma_color_56()
    ensures
        spec_named_color(seq![80u8, 105u8, 110u8, 101u8, 71u8, 114u8, 101u8, 101u8, 110u8]) == Some(NamedColor::Cmyk(92u8, 0u8, 59u8, 25u8)),
{
    lemma_entry_found(56);
    lemma_name_bytes_56();
}

proof fn lemma_color_57()
    ensures
        spec_named_color(seq![76u8, 105u8, 109u8, 101u8, 71u8, 114u8, 101u8, 101u8, 110u8]) == Some(NamedColor::Cmyk(50u8, 0u8, 100u8, 0u8)),
{
    lemma_entry_found(57);
    lemma_name_bytes_57();
}

proof fn lemma_color_58()
    ensures
        spec_named_color(seq![89u8, 101u8, 108u8, 108u8, 111u8, 119u8, 71u8, 114u8, 101u8, 101u8, 110u8]) == Some(NamedColor::Cmyk(44u8, 0u8, 74u8, 0u8)),
{
    lemma_entry_found(58);
    lemma_name_bytes_58();
}

proof fn lemma_color_59()
    ensures
        spec_named_color(seq![83u8, 112u8, 114u8, 105u8, 110u8, 103u8, 71u8, 114u8, 101u8, 101u8, 110u8]) == Some(NamedColor::Cmyk(26u8, 0u8, 76u8, 0u8)),
{
    lemma_entry_found(59);
    lemma_name_bytes_59();
}

proof fn lemma_color_60()
    ensures
        spec_named_color(seq![79u8, 108u8, 105u8, 118u8, 101u8, 71u8, 114u8, 101u8, 101u8, 110u8]) == Some(NamedColor::Cmyk(64u8, 0u8, 95u8, 40u8)),
{
    lemma_entry_found(60);
    lemma_name_bytes_60();
}

proof fn lemma_color_61()
    ensures
        spec_named_color(seq![82u8, 97u8, 119u8, 83u8, 105u8, 101u8, 110u8, 110u8, 97u8]) == Some(NamedColor::Cmyk(0u8, 72u8, 100u8, 45u8)),
{
    lemma_entry_found(61);
    lemma_name_bytes_61();
}

proof fn lemma_color_62()
    ensures
        spec_named_color(seq![83u8, 101u8, 112u8, 105u8, 97u8]) == Some(NamedColor::Cmyk(0u8, 83u8, 100u8, 70u8)),
{
    lemma_entry_found(62);
    lemma_name_bytes_62();
}

proof fn lemma_color_63()
    ensures
        spec_named_color(seq![66u8, 114u8, 111u8, 119u8, 110u8]) == Some(NamedColor::Cmyk(0u8, 81u8, 100u8, 60u8)),
{
    lemma_entry_found(63);
    lemma_name_bytes_63();
}

proof fn lemma_color_64()
    ensures
        spec_named_color(seq![84u8, 97u8, 110u8]) == Some(NamedColor::Cmyk(14u8, 42u8, 56u8, 0u8)),
{
    lemma_entry_found(64);
    lemma_name_bytes_64();
}

proof fn lemma_color_65()
    ensures
        spec_named_color(seq![71u8, 114u8, 97u8, 121u8]) == Some(NamedColor::Gray(50u8)),
{
    lemma_entry_found(65);
    lemma_name_bytes_65();
}

proof fn lemma_color_66()
    ensures
        spec_named_color(seq![66u8, 108u8, 97u8, 99u8, 107u8]) == Some(NamedColor::Gray(0u8)),
{
    lemma_entry_found(66);
    lemma_name_bytes_66();
}

proof fn lemma_color_67()
    ensures
        spec_named_color(seq![87u8, 104u8, 105u8, 116u8, 101u8]) == Some(NamedColor::Gray(100u8)),
{
    lemma_entry_found(67);
    lemma_name_bytes_67();
}

/// The named colours are those of dvips (`dvipsnames`), in CMYK percentages, or gray levels for
/// `Gray`, `Black` and `White`: each name gives its colour.
pub proof fn law_named_colors_are_dvipsnames()
    ensures
        spec_named_color(seq![71u8, 114u8, 101u8, 101u8, 110u8, 89u8, 101u8, 108u8, 108u8, 111u8, 119u8]) == Some(NamedColor::Cmyk(15u8, 0u8, 69u8, 0u8)), // GreenYellow
        spec_named_color(seq![89u8, 101u8, 108u8, 108u8, 111u8, 119u8]) == Some(NamedColor::Cmyk(0u8, 0u8, 100u8, 0u8)), // Yellow
        spec_named_color(seq![71u8, 111u8, 108u8, 100u8, 101u8, 110u8, 114u8, 111u8, 100u8]) == Some(NamedColor::Cmyk(0u8, 10u8, 84u8, 0u8)), // Goldenrod
        spec_named_color(seq![68u8, 97u8, 110u8, 100u8, 101u8, 108u8, 105u8, 111u8, 110u8]) == Some(NamedColor::Cmyk(0u8, 29u8, 84u8, 0u8)), // Dandelion
        spec_named_color(seq![65u8, 112u8, 114u8, 105u8, 99u8, 111u8, 116u8]) == Some(NamedColor::Cmyk(0u8, 32u8, 52u8, 0u8)), // Apricot
        spec_named_color(seq![80u8, 101u8, 97u8, 99u8, 104u8]) == Some(NamedColor::Cmyk(0u8, 50u8, 70u8, 0u8)), // Peach
        spec_named_color(seq![77u8, 101u8, 108u8, 111u8, 110u8]) == Some(NamedColor::Cmyk(0u8, 46u8, 50u8, 0u8)), // Melon
        spec_named_color(seq![89u8, 101u8, 108u8, 108u8, 111u8, 119u8, 79u8, 114u8, 97u8, 110u8, 103u8, 101u8]) == Some(NamedColor::Cmyk(0u8, 42u8, 100u8, 0u8)), // YellowOrange
        spec_named_color(seq![79u8, 114u8, 97u8, 110u8, 103u8, 101u8]) == Some(NamedColor::Cmyk(0u8, 61u8, 87u8, 0u8)), // Orange
        spec_named_color(seq![66u8, 117u8, 114u8, 110u8, 116u8, 79u8, 114u8, 97u8, 110u8, 103u8, 101u8]) == Some(NamedColor::Cmyk(0u8, 51u8, 100u8, 0u8)), // BurntOrange
        spec_named_color(seq![66u8, 105u8, 116u8, 116u8, 101u8, 114u8, 115u8, 119u8, 101u8, 101u8, 116u8]) == Some(NamedColor::Cmyk(0u8, 75u8, 100u8, 24u8)), // Bittersweet
        spec_named_color(seq![82u8, 101u8, 100u8, 79u8, 114u8, 97u8, 110u8, 103u8, 101u8]) == Some(NamedColor::Cmyk(0u8, 77u8, 87u8, 0u8)), // RedOrange
        spec_named_color(seq![77u8, 97u8, 104u8, 111u8, 103u8, 97u8, 110u8, 121u8]) == Some(NamedColor::Cmyk(0u8, 85u8, 87u8, 35u8)), // Mahogany
        spec_named_color(seq![77u8, 97u8, 114u8, 111u8, 111u8, 110u8]) == Some(NamedColor::Cmyk(0u8, 87u8, 68u8, 32u8)), // Maroon
        spec_named_color(seq![66u8, 114u8, 105u8, 99u8, 107u8, 82u8, 101u8, 100u8]) == Some(NamedColor::Cmyk(0u8, 89u8, 94u8, 28u8)), // BrickRed
        spec_named_color(seq![82u8, 101u8, 100u8]) == Some(NamedColor::Cmyk(0u8, 100u8, 100u8, 0u8)), // Red
        spec_named_color(seq![79u8, 114u8, 97u8, 110u8, 103u8, 101u8, 82u8, 101u8, 100u8]) == Some(NamedColor::Cmyk(0u8, 100u8, 50u8, 0u8)), // OrangeRed
        spec_named_color(seq![82u8, 117u8, 98u8, 105u8, 110u8, 101u8, 82u8, 101u8, 100u8]) == Some(NamedColor::Cmyk(0u8, 100u8, 13u8, 0u8)), // RubineRed
        spec_named_color(seq![87u8, 105u8, 108u8, 100u8, 83u8, 116u8, 114u8, 97u8, 119u8, 98u8, 101u8, 114u8, 114u8, 121u8]) == Some(NamedColor::Cmyk(0u8, 96u8, 39u8, 0u8)), // WildStrawberry
        spec_named_color(seq![83u8, 97u8, 108u8, 109u8, 111u8, 110u8]) == Some(NamedColor::Cmyk(0u8, 53u8, 38u8, 0u8)), // Salmon
        spec_named_color(seq![67u8, 97u8, 114u8, 110u8, 97u8, 116u8, 105u8, 111u8, 110u8, 80u8, 105u8, 110u8, 107u8]) == Some(NamedColor::Cmyk(0u8, 63u8, 0u8, 0u8)), // CarnationPink
        spec_named_color(seq![77u8, 97u8, 103u8, 101u8, 110u8, 116u8, 97u8]) == Some(NamedColor::Cmyk(0u8, 100u8, 0u8, 0u8)), // Magenta
        spec_named_color(seq![86u8, 105u8, 111u8, 108u8, 101u8, 116u8, 82u8, 101u8, 100u8]) == Some(NamedColor::Cmyk(0u8, 81u8, 0u8, 0u8)), // VioletRed
        spec_named_color(seq![82u8, 104u8, 111u8, 100u8, 97u8, 109u8, 105u8, 110u8, 101u8]) == Some(NamedColor::Cmyk(0u8, 82u8, 0u8, 0u8)), // Rhodamine
        spec_named_color(seq![77u8, 117u8, 108u8, 98u8, 101u8, 114u8, 114u8, 121u8]) == Some(NamedColor::Cmyk(34u8, 90u8, 0u8, 2u8)), // Mulberry
        spec_named_color(seq![82u8, 101u8, 100u8, 86u8, 105u8, 111u8, 108u8, 101u8, 116u8]) == Some(NamedColor::Cmyk(7u8, 90u8, 0u8, 34u8)), // RedViolet
        spec_named_color(seq![70u8, 117u8, 99u8, 104u8, 115u8, 105u8, 97u8]) == Some(NamedColor::Cmyk(47u8, 91u8, 0u8, 8u8)), // Fuchsia
        spec_named_color(seq![76u8, 97u8, 118u8, 101u8, 110u8, 100u8, 101u8, 114u8]) == Some(NamedColor::Cmyk(0u8, 48u8, 0u8, 0u8)), // Lavender
        spec_named_color(seq![84u8, 104u8, 105u8, 115u8, 116u8, 108u8, 101u8]) == Some(NamedColor::Cmyk(12u8, 59u8, 0u8, 0u8)), // Thistle
        spec_named_color(seq![79u8, 114u8, 99u8, 104u8, 105u8, 100u8]) == Some(NamedColor::Cmyk(32u8, 64u8, 0u8, 0u8)), // Orchid
        spec_named_color(seq![68u8, 97u8, 114u8, 107u8, 79u8, 114u8, 99u8, 104u8, 105u8, 100u8]) == Some(NamedColor::Cmyk(40u8, 80u8, 20u8, 0u8)), // DarkOrchid
        spec_named_color(seq![80u8, 117u8, 114u8, 112u8, 108u8, 101u8]) == Some(NamedColor::Cmyk(45u8, 86u8, 0u8, 0u8)), // Purple
        spec_named_color(seq![80u8, 108u8, 117u8, 109u8]) == Some(NamedColor::Cmyk(50u8, 100u8, 0u8, 0u8)), // Plum
        spec_named_color(seq![86u8, 105u8, 111u8, 108u8, 101u8, 116u8]) == Some(NamedColor::Cmyk(79u8, 88u8, 0u8, 0u8)), // Violet
        spec_named_color(seq![82u8, 111u8, 121u8, 97u8, 108u8, 80u8, 117u8, 114u8, 112u8, 108u8, 101u8]) == Some(NamedColor::Cmyk(75u8, 90u8, 0u8, 0u8)), // RoyalPurple
        spec_named_color(seq![66u8, 108u8, 117u8, 101u8, 86u8, 105u8, 111u8, 108u8, 101u8, 116u8]) == Some(NamedColor::Cmyk(86u8, 91u8, 0u8, 4u8)), // BlueViolet
        spec_named_color(seq![80u8, 101u8, 114u8, 105u8, 119u8, 105u8, 110u8, 107u8, 108u8, 101u8]) == Some(NamedColor::Cmyk(57u8, 55u8, 0u8, 0u8)), // Periwinkle
        spec_named_color(seq![67u8, 97u8, 100u8, 101u8, 116u8, 66u8, 108u8, 117u8, 101u8]) == Some(NamedColor::Cmyk(62u8, 57u8, 23u8, 0u8)), // CadetBlue
        spec_named_color(seq![67u8, 111u8, 114u8, 110u8, 102u8, 108u8, 111u8, 119u8, 101u8, 114u8, 66u8, 108u8, 117u8, 101u8]) == Some(NamedColor::Cmyk(65u8, 13u8, 0u8, 0u8)), // CornflowerBlue
        spec_named_color(seq![77u8, 105u8, 100u8, 110u8, 105u8, 103u8, 104u8, 116u8, 66u8, 108u8, 117u8, 101u8]) == Some(NamedColor::Cmyk(98u8, 13u8, 0u8, 43u8)), // MidnightBlue
        spec_named_color(seq![78u8, 97u8, 118u8, 121u8, 66u8, 108u8, 117u8, 101u8]) == Some(NamedColor::Cmyk(94u8, 54u8, 0u8, 0u8)), // NavyBlue
        spec_named_color(seq![82u8, 111u8, 121u8, 97u8, 108u8, 66u8, 108u8, 117u8, 101u8]) == Some(NamedColor::Cmyk(100u8, 50u8, 0u8, 0u8)), // RoyalBlue
        spec_named_color(seq![66u8, 108u8, 117u8, 101u8]) == Some(NamedColor::Cmyk(100u8, 100u8, 0u8, 0u8)), // Blue
        spec_named_color(seq![67u8, 101u8, 114u8, 117u8, 108u8, 101u8, 97u8, 110u8]) == Some(NamedColor::Cmyk(94u8, 11u8, 0u8, 0u8)), // Cerulean
        spec_named_color(seq![67u8, 121u8, 97u8, 110u8]) == Some(NamedColor::Cmyk(100u8, 0u8, 0u8, 0u8)), // Cyan
        spec_named_color(seq![80u8, 114u8, 111u8, 99u8, 101u8, 115u8, 115u8, 66u8, 108u8, 117u8, 101u8]) == Some(NamedColor::Cmyk(96u8, 0u8, 0u8, 0u8)), // ProcessBlue
        spec_named_color(seq![83u8, 107u8, 121u8, 66u8, 108u8, 117u8, 101u8]) == Some(NamedColor::Cmyk(62u8, 0u8, 12u8, 0u8)), // SkyBlue
        spec_named_color(seq![84u8, 117u8, 114u8, 113u8, 117u8, 111u8, 105u8, 115u8, 101u8]) == Some(NamedColor::Cmyk(85u8, 0u8, 20u8, 0u8)), // Turquoise
        spec_named_color(seq![84u8, 101u8, 97u8, 108u8, 66u8, 108u8, 117u8, 101u8]) == Some(NamedColor::Cmyk(86u8, 0u8, 34u8, 2u8)), // TealBlue
        spec_named_color(seq![65u8, 113u8, 117u8, 97u8, 109u8, 97u8, 114u8, 105u8, 110u8, 101u8]) == Some(NamedColor::Cmyk(82u8, 0u8, 30u8, 0u8)), // Aquamarine
        spec_named_color(seq![66u8, 108u8, 117u8, 101u8, 71u8, 114u8, 101u8, 101u8, 110u8]) == Some(NamedColor::Cmyk(85u8, 0u8, 33u8, 0u8)), // BlueGreen
        spec_named_color(seq![69u8, 109u8, 101u8, 114u8, 97u8, 108u8, 100u8]) == Some(NamedColor::Cmyk(100u8, 0u8, 50u8, 0u8)), // Emerald
        spec_named_color(seq![74u8, 117u8, 110u8, 103u8, 108u8, 101u8, 71u8, 114u8, 101u8, 101u8, 110u8]) == Some(NamedColor::Cmyk(99u8, 0u8, 52u8, 0u8)), // JungleGreen
        spec_named_color(seq![83u8, 101u8, 97u8, 71u8, 114u8, 101u8, 101u8, 110u8]) == Some(NamedColor::Cmyk(69u8, 0u8, 50u8, 0u8)), // SeaGreen
        spec_named_color(seq![71u8, 114u8, 101u8, 101u8, 110u8]) == Some(NamedColor::Cmyk(100u8, 0u8, 100u8, 0u8)), // Green
        spec_named_color(seq![70u8, 111u8, 114u8, 101u8, 115u8, 116u8, 71u8, 114u8, 101u8, 101u8, 110u8]) == Some(NamedColor::Cmyk(91u8, 0u8, 88u8, 12u8)), // ForestGreen
        spec_named_color(seq![80u8, 105u8, 110u8, 101u8, 71u8, 114u8, 101u8, 101u8, 110u8]) == Some(NamedColor::Cmyk(92u8, 0u8, 59u8, 25u8)), // PineGreen
        spec_named_color(seq![76u8, 105u8, 109u8, 101u8, 71u8, 114u8, 101u8, 101u8, 110u8]) == Some(NamedColor::Cmyk(50u8, 0u8, 100u8, 0u8)), // LimeGreen
        spec_named_color(seq![89u8, 101u8, 108u8, 108u8, 111u8, 119u8, 71u8, 114u8, 101u8, 101u8, 110u8]) == Some(NamedColor::Cmyk(44u8, 0u8, 74u8, 0u8)), // YellowGreen
        spec_named_color(seq![83u8, 112u8, 114u8, 105u8, 110u8, 103u8, 71u8, 114u8, 101u8, 101u8, 110u8]) == Some(NamedColor::Cmyk(26u8, 0u8, 76u8, 0u8)), // SpringGreen
        spec_named_color(seq![79u8, 108u8, 105u8, 118u8, 101u8, 71u8, 114u8, 101u8, 101u8, 110u8]) == Some(NamedColor::Cmyk(64u8, 0u8, 95u8, 40u8)), // OliveGreen
        spec_named_color(seq![82u8, 97u8, 119u8, 83u8, 105u8, 101u8, 110u8, 110u8, 97u8]) == Some(NamedColor::Cmyk(0u8, 72u8, 100u8, 45u8)), // RawSienna
        spec_named_color(seq![83u8, 101u8, 112u8, 105u8, 97u8]) == Some(NamedColor::Cmyk(0u8, 83u8, 100u8, 70u8)), // Sepia
        spec_named_color(seq![66u8, 114u8, 111u8, 119u8, 110u8]) == Some(NamedColor::Cmyk(0u8, 81u8, 100u8, 60u8)), // Brown
        spec_named_color(seq![84u8, 97u8, 110u8]) == Some(NamedColor::Cmyk(14u8, 42u8, 56u8, 0u8)), // Tan
        spec_named_color(seq![71u8, 114u8, 97u8, 121u8]) == Some(NamedColor::Gray(50u8)), // Gray
        spec_named_color(seq![66u8, 108u8, 97u8, 99u8, 107u8]) == Some(NamedColor::Gray(0u8)), // Black
        spec_named_color(seq![87u8, 104u8, 105u8, 116u8, 101u8]) == Some(NamedColor::Gray(100u8)), // White
{
    lemma_color_0();
    lemma_color_1();
    lemma_color_2();
    lemma_color_3();
    lemma_color_4();
    lemma_color_5();
    lemma_color_6();
    lemma_color_7();
    lemma_color_8();
    lemma_color_9();
    lemma_color_10();
    lemma_color_11();
    lemma_color_12();
    lemma_color_13();
    lemma_color_14();
    lemma_color_15();
    lemma_color_16();
    lemma_color_17();
    lemma_color_18();
    lemma_color_19();
    lemma_color_20();
    lemma_color_21();
    lemma_color_22();
    lemma_color_23();
    lemma_color_24();
    lemma_color_25();
    lemma_color_26();
    lemma_color_27();
    lemma_color_28();
    lemma_color_29();
    lemma_color_30();
    lemma_color_31();
    lemma_color_32();
    lemma_color_33();
    lemma_color_34();
    lemma_color_35();
    lemma_color_36();
    lemma_color_37();
    lemma_color_38();
    lemma_color_39();
    lemma_color_40();
    lemma_color_41();
    lemma_color_42();
    lemma_color_43();
    lemma_color_44();
    lemma_color_45();
    lemma_color_46();
    lemma_color_47();
    lemma_color_48();
    lemma_color_49();
    lemma_color_50();
    lemma_color_51();
    lemma_color_52();
    lemma_color_53();
    lemma_color_54();
    lemma_color_55();
    lemma_color_56();
    lemma_color_57();
    lemma_color_58();
    lemma_color_59();
    lemma_color_60();
    lemma_color_61();
    lemma_color_62();
    lemma_color_63();
    lemma_color_64();
    lemma_color_65();
    lemma_color_66();
    lemma_color_67();
}

} // verus!
