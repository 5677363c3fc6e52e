//! Generic BEAM opcode numbers and the number of arguments of each opcode.
use vstd::prelude::*;

verus! {

pub const OPCODE_LABEL: u8 = 1;
pub const OPCODE_FUNC_INFO: u8 = 2;
pub const OPCODE_INT_CODE_END: u8 = 3;
pub const OPCODE_CALL: u8 = 4;
pub const OPCODE_CALL_LAST: u8 = 5;
pub const OPCODE_CALL_ONLY: u8 = 6;
pub const OPCODE_CALL_EXT: u8 = 7;
pub const OPCODE_CALL_EXT_LAST: u8 = 8;
pub const OPCODE_BIF0: u8 = 9;
pub const OPCODE_BIF1: u8 = 10;
pub const OPCODE_BIF2: u8 = 11;
pub const OPCODE_RETURN: u8 = 19;
pub const OPCODE_IS_LT: u8 = 39;
pub const OPCODE_IS_GE: u8 = 40;
pub const OPCODE_IS_EQ: u8 = 41;
pub const OPCODE_IS_EQ_EXACT: u8 = 43;
pub const OPCODE_JUMP: u8 = 61;
pub const OPCODE_PUT: u8 = 71;
pub const OPCODE_BADMATCH: u8 = 72;
pub const OPCODE_CALL_EXT_ONLY: u8 = 78;
pub const OPCODE_MAKE_FUN2: u8 = 103;
pub const OPCODE_TRY: u8 = 104;
pub const OPCODE_TRY_END: u8 = 105;
pub const OPCODE_TRY_CASE: u8 = 106;
pub const OPCODE_RAISE: u8 = 108;
pub const OPCODE_APPLY: u8 = 112;
pub const OPCODE_APPLY_LAST: u8 = 113;
pub const OPCODE_GC_BIF1: u8 = 124;
pub const OPCODE_GC_BIF2: u8 = 125;
pub const OPCODE_TRIM: u8 = 136;
pub const OPCODE_GC_BIF3: u8 = 152;
pub const OPCODE_LINE: u8 = 153;
pub const OPCODE_PUT_TUPLE2: u8 = 164;

/// The largest opcode number known to this runtime.
pub const OPCODE_MAX: u8 = 168;

/// Number of arguments of opcode `op` (zero for numbers that are no opcode).
pub open spec fn arity_of(op: u8) -> u8 {
    match op {
        1 | 17 | 18 | 24 | 25 | 61 | 63 | 71 | 72 | 74 | 75 | 85 | 86 | 93 |
            95 | 103 | 105 | 106 | 107 | 112 | 130 | 150 | 151 | 153 => 1,
        4 | 6 | 7 | 9 | 12 | 14 | 16 | 23 | 26 | 45 | 46 | 47 | 48 | 49 | 50 |
            51 | 52 | 53 | 54 | 55 | 56 | 57 | 62 | 64 | 70 | 77 | 78 | 79 | 84 |
            87 | 88 | 92 | 96 | 97 | 104 | 108 | 113 | 114 | 122 | 123 | 126 | 127 |
            128 | 129 | 136 | 156 | 162 | 163 | 164 | 168 => 2,
        2 | 5 | 8 | 13 | 15 | 38 | 39 | 40 | 41 | 42 | 43 | 44 | 58 | 59 | 60 |
            65 | 66 | 67 | 68 | 69 | 76 | 102 | 110 | 115 | 121 | 131 | 144 | 145 |
            146 | 147 | 148 | 157 | 158 | 165 | 167 => 3,
        10 | 27 | 28 | 29 | 30 | 31 | 32 | 33 | 34 | 35 | 36 | 37 | 83 | 98 |
            99 | 100 | 101 | 132 | 139 | 141 | 143 | 159 | 166 => 4,
        11 | 80 | 81 | 82 | 89 | 90 | 91 | 111 | 116 | 120 | 124 | 138 | 140 |
            142 | 154 | 155 => 5,
        109 | 125 | 135 | 137 => 6,
        117 | 118 | 119 | 152 => 7,
        134 => 8,
        _ => 0,
    }
}

/// Number of arguments of opcode `op` (zero for numbers that are no opcode).
pub fn opcode_arity(op: u8) -> (r: u8)
    ensures
        r == arity_of(op),
        r <= 8,
{
    match op {
        1 | 17 | 18 | 24 | 25 | 61 | 63 | 71 | 72 | 74 | 75 | 85 | 86 | 93 |
            95 | 103 | 105 | 106 | 107 | 112 | 130 | 150 | 151 | 153 => 1,
        4 | 6 | 7 | 9 | 12 | 14 | 16 | 23 | 26 | 45 | 46 | 47 | 48 | 49 | 50 |
            51 | 52 | 53 | 54 | 55 | 56 | 57 | 62 | 64 | 70 | 77 | 78 | 79 | 84 |
            87 | 88 | 92 | 96 | 97 | 104 | 108 | 113 | 114 | 122 | 123 | 126 | 127 |
            128 | 129 | 136 | 156 | 162 | 163 | 164 | 168 => 2,
        2 | 5 | 8 | 13 | 15 | 38 | 39 | 40 | 41 | 42 | 43 | 44 | 58 | 59 | 60 |
            65 | 66 | 67 | 68 | 69 | 76 | 102 | 110 | 115 | 121 | 131 | 144 | 145 |
            146 | 147 | 148 | 157 | 158 | 165 | 167 => 3,
        10 | 27 | 28 | 29 | 30 | 31 | 32 | 33 | 34 | 35 | 36 | 37 | 83 | 98 |
            99 | 100 | 101 | 132 | 139 | 141 | 143 | 159 | 166 => 4,
        11 | 80 | 81 | 82 | 89 | 90 | 91 | 111 | 116 | 120 | 124 | 138 | 140 |
            142 | 154 | 155 => 5,
        109 | 125 | 135 | 137 => 6,
        117 | 118 | 119 | 152 => 7,
        134 => 8,
        _ => 0,
    }
}

} // verus!
