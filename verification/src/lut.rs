use vstd::prelude::*;
use vstd::arithmetic::power2::{pow2, lemma2_to64};
use std::collections::HashMap;
use crate::huffcode::{HuffCode, dc_code_spec, ac_code_spec, code_ok, lemma_dc_table_entries, lemma_ac_table_entries, dc_table_map, ac_table_map, ac_key, ac_key_of};

verus! {

/// The number of 16-bit windows that start with a code word of `len` bits:
/// `2^(16-len)`.
pub open spec fn window_unit(len: u8) -> int {
    if len == 1 {
        32768
    } else if len == 2 {
        16384
    } else if len == 3 {
        8192
    } else if len == 4 {
        4096
    } else if len == 5 {
        2048
    } else if len == 6 {
        1024
    } else if len == 7 {
        512
    } else if len == 8 {
        256
    } else if len == 9 {
        128
    } else if len == 10 {
        64
    } else if len == 11 {
        32
    } else if len == 12 {
        16
    } else if len == 13 {
        8
    } else if len == 14 {
        4
    } else if len == 15 {
        2
    } else if len == 16 {
        1
    } else {
        0
    }
}

/// For a code word of 1 to 16 bits, the windows it starts are `2^(16-len)`
/// consecutive ones from `code * 2^(16-len)`.
pub proof fn lemma_window_unit(h: HuffCode)
    requires
        1 <= h.len <= 16,
    ensures
        window_unit(h.len) == pow2((16 - h.len) as nat),
        code_start(h) == h.code * window_unit(h.len),
        code_end(h) == code_start(h) + window_unit(h.len),
{
    lemma2_to64();
}

/// The first window that starts with `h`.
pub open spec fn code_start(h: HuffCode) -> int {
    if h.len == 1 {
        h.code * 32768
    } else if h.len == 2 {
        h.code * 16384
    } else if h.len == 3 {
        h.code * 8192
    } else if h.len == 4 {
        h.code * 4096
    } else if h.len == 5 {
        h.code * 2048
    } else if h.len == 6 {
        h.code * 1024
    } else if h.len == 7 {
        h.code * 512
    } else if h.len == 8 {
        h.code * 256
    } else if h.len == 9 {
        h.code * 128
    } else if h.len == 10 {
        h.code * 64
    } else if h.len == 11 {
        h.code * 32
    } else if h.len == 12 {
        h.code * 16
    } else if h.len == 13 {
        h.code * 8
    } else if h.len == 14 {
        h.code * 4
    } else if h.len == 15 {
        h.code * 2
    } else if h.len == 16 {
        h.code * 1
    } else {
        0
    }
}

/// The window after the last one that starts with `h`.
pub open spec fn code_end(h: HuffCode) -> int {
    if h.len == 1 {
        (h.code + 1) * 32768
    } else if h.len == 2 {
        (h.code + 1) * 16384
    } else if h.len == 3 {
        (h.code + 1) * 8192
    } else if h.len == 4 {
        (h.code + 1) * 4096
    } else if h.len == 5 {
        (h.code + 1) * 2048
    } else if h.len == 6 {
        (h.code + 1) * 1024
    } else if h.len == 7 {
        (h.code + 1) * 512
    } else if h.len == 8 {
        (h.code + 1) * 256
    } else if h.len == 9 {
        (h.code + 1) * 128
    } else if h.len == 10 {
        (h.code + 1) * 64
    } else if h.len == 11 {
        (h.code + 1) * 32
    } else if h.len == 12 {
        (h.code + 1) * 16
    } else if h.len == 13 {
        (h.code + 1) * 8
    } else if h.len == 14 {
        (h.code + 1) * 4
    } else if h.len == 15 {
        (h.code + 1) * 2
    } else if h.len == 16 {
        (h.code + 1) * 1
    } else {
        0
    }
}

/// The 16-bit windows that start with code word `h`: those in
/// `[code * 2^(16-len), (code + 1) * 2^(16-len))`.
pub open spec fn covers(h: HuffCode, w: int) -> bool {
    code_start(h) <= w < code_end(h)
}

/// The AC table's entries in the order of the windows that they cover.
pub open spec fn ac_order(i: int) -> (u8, u8) {
    if i == 0 {
        (0u8, 1u8)
    } else if i == 1 {
        (0u8, 2u8)
    } else if i == 2 {
        (0u8, 3u8)
    } else if i == 3 {
        (0u8, 0u8)
    } else if i == 4 {
        (0u8, 4u8)
    } else if i == 5 {
        (1u8, 1u8)
    } else if i == 6 {
        (0u8, 5u8)
    } else if i == 7 {
        (1u8, 2u8)
    } else if i == 8 {
        (2u8, 1u8)
    } else if i == 9 {
        (3u8, 1u8)
    } else if i == 10 {
        (4u8, 1u8)
    } else if i == 11 {
        (0u8, 6u8)
    } else if i == 12 {
        (1u8, 3u8)
    } else if i == 13 {
        (5u8, 1u8)
    } else if i == 14 {
        (6u8, 1u8)
    } else if i == 15 {
        (0u8, 7u8)
    } else if i == 16 {
        (2u8, 2u8)
    } else if i == 17 {
        (7u8, 1u8)
    } else if i == 18 {
        (1u8, 4u8)
    } else if i == 19 {
        (3u8, 2u8)
    } else if i == 20 {
        (8u8, 1u8)
    } else if i == 21 {
        (9u8, 1u8)
    } else if i == 22 {
        (10u8, 1u8)
    } else if i == 23 {
        (0u8, 8u8)
    } else if i == 24 {
        (2u8, 3u8)
    } else if i == 25 {
        (4u8, 2u8)
    } else if i == 26 {
        (11u8, 1u8)
    } else if i == 27 {
        (12u8, 1u8)
    } else if i == 28 {
        (1u8, 5u8)
    } else if i == 29 {
        (5u8, 2u8)
    } else if i == 30 {
        (13u8, 1u8)
    } else if i == 31 {
        (15u8, 0u8)
    } else if i == 32 {
        (2u8, 4u8)
    } else if i == 33 {
        (3u8, 3u8)
    } else if i == 34 {
        (6u8, 2u8)
    } else if i == 35 {
        (7u8, 2u8)
    } else if i == 36 {
        (8u8, 2u8)
    } else if i == 37 {
        (0u8, 9u8)
    } else if i == 38 {
        (0u8, 10u8)
    } else if i == 39 {
        (1u8, 6u8)
    } else if i == 40 {
        (1u8, 7u8)
    } else if i == 41 {
        (1u8, 8u8)
    } else if i == 42 {
        (1u8, 9u8)
    } else if i == 43 {
        (1u8, 10u8)
    } else if i == 44 {
        (2u8, 5u8)
    } else if i == 45 {
        (2u8, 6u8)
    } else if i == 46 {
        (2u8, 7u8)
    } else if i == 47 {
        (2u8, 8u8)
    } else if i == 48 {
        (2u8, 9u8)
    } else if i == 49 {
        (2u8, 10u8)
    } else if i == 50 {
        (3u8, 4u8)
    } else if i == 51 {
        (3u8, 5u8)
    } else if i == 52 {
        (3u8, 6u8)
    } else if i == 53 {
        (3u8, 7u8)
    } else if i == 54 {
        (3u8, 8u8)
    } else if i == 55 {
        (3u8, 9u8)
    } else if i == 56 {
        (3u8, 10u8)
    } else if i == 57 {
        (4u8, 3u8)
    } else if i == 58 {
        (4u8, 4u8)
    } else if i == 59 {
        (4u8, 5u8)
    } else if i == 60 {
        (4u8, 6u8)
    } else if i == 61 {
        (4u8, 7u8)
    } else if i == 62 {
        (4u8, 8u8)
    } else if i == 63 {
        (4u8, 9u8)
    } else if i == 64 {
        (4u8, 10u8)
    } else if i == 65 {
        (5u8, 3u8)
    } else if i == 66 {
        (5u8, 4u8)
    } else if i == 67 {
        (5u8, 5u8)
    } else if i == 68 {
        (5u8, 6u8)
    } else if i == 69 {
        (5u8, 7u8)
    } else if i == 70 {
        (5u8, 8u8)
    } else if i == 71 {
        (5u8, 9u8)
    } else if i == 72 {
        (5u8, 10u8)
    } else if i == 73 {
        (6u8, 3u8)
    } else if i == 74 {
        (6u8, 4u8)
    } else if i == 75 {
        (6u8, 5u8)
    } else if i == 76 {
        (6u8, 6u8)
    } else if i == 77 {
        (6u8, 7u8)
    } else if i == 78 {
        (6u8, 8u8)
    } else if i == 79 {
        (6u8, 9u8)
    } else if i == 80 {
        (6u8, 10u8)
    } else if i == 81 {
        (7u8, 3u8)
    } else if i == 82 {
        (7u8, 4u8)
    } else if i == 83 {
        (7u8, 5u8)
    } else if i == 84 {
        (7u8, 6u8)
    } else if i == 85 {
        (7u8, 7u8)
    } else if i == 86 {
        (7u8, 8u8)
    } else if i == 87 {
        (7u8, 9u8)
    } else if i == 88 {
        (7u8, 10u8)
    } else if i == 89 {
        (8u8, 3u8)
    } else if i == 90 {
        (8u8, 4u8)
    } else if i == 91 {
        (8u8, 5u8)
    } else if i == 92 {
        (8u8, 6u8)
    } else if i == 93 {
        (8u8, 7u8)
    } else if i == 94 {
        (8u8, 8u8)
    } else if i == 95 {
        (8u8, 9u8)
    } else if i == 96 {
        (8u8, 10u8)
    } else if i == 97 {
        (9u8, 2u8)
    } else if i == 98 {
        (9u8, 3u8)
    } else if i == 99 {
        (9u8, 4u8)
    } else if i == 100 {
        (9u8, 5u8)
    } else if i == 101 {
        (9u8, 6u8)
    } else if i == 102 {
        (9u8, 7u8)
    } else if i == 103 {
        (9u8, 8u8)
    } else if i == 104 {
        (9u8, 9u8)
    } else if i == 105 {
        (9u8, 10u8)
    } else if i == 106 {
        (10u8, 2u8)
    } else if i == 107 {
        (10u8, 3u8)
    } else if i == 108 {
        (10u8, 4u8)
    } else if i == 109 {
        (10u8, 5u8)
    } else if i == 110 {
        (10u8, 6u8)
    } else if i == 111 {
        (10u8, 7u8)
    } else if i == 112 {
        (10u8, 8u8)
    } else if i == 113 {
        (10u8, 9u8)
    } else if i == 114 {
        (10u8, 10u8)
    } else if i == 115 {
        (11u8, 2u8)
    } else if i == 116 {
        (11u8, 3u8)
    } else if i == 117 {
        (11u8, 4u8)
    } else if i == 118 {
        (11u8, 5u8)
    } else if i == 119 {
        (11u8, 6u8)
    } else if i == 120 {
        (11u8, 7u8)
    } else if i == 121 {
        (11u8, 8u8)
    } else if i == 122 {
        (11u8, 9u8)
    } else if i == 123 {
        (11u8, 10u8)
    } else if i == 124 {
        (12u8, 2u8)
    } else if i == 125 {
        (12u8, 3u8)
    } else if i == 126 {
        (12u8, 4u8)
    } else if i == 127 {
        (12u8, 5u8)
    } else if i == 128 {
        (12u8, 6u8)
    } else if i == 129 {
        (12u8, 7u8)
    } else if i == 130 {
        (12u8, 8u8)
    } else if i == 131 {
        (12u8, 9u8)
    } else if i == 132 {
        (12u8, 10u8)
    } else if i == 133 {
        (13u8, 2u8)
    } else if i == 134 {
        (13u8, 3u8)
    } else if i == 135 {
        (13u8, 4u8)
    } else if i == 136 {
        (13u8, 5u8)
    } else if i == 137 {
        (13u8, 6u8)
    } else if i == 138 {
        (13u8, 7u8)
    } else if i == 139 {
        (13u8, 8u8)
    } else if i == 140 {
        (13u8, 9u8)
    } else if i == 141 {
        (13u8, 10u8)
    } else if i == 142 {
        (14u8, 1u8)
    } else if i == 143 {
        (14u8, 2u8)
    } else if i == 144 {
        (14u8, 3u8)
    } else if i == 145 {
        (14u8, 4u8)
    } else if i == 146 {
        (14u8, 5u8)
    } else if i == 147 {
        (14u8, 6u8)
    } else if i == 148 {
        (14u8, 7u8)
    } else if i == 149 {
        (14u8, 8u8)
    } else if i == 150 {
        (14u8, 9u8)
    } else if i == 151 {
        (14u8, 10u8)
    } else if i == 152 {
        (15u8, 1u8)
    } else if i == 153 {
        (15u8, 2u8)
    } else if i == 154 {
        (15u8, 3u8)
    } else if i == 155 {
        (15u8, 4u8)
    } else if i == 156 {
        (15u8, 5u8)
    } else if i == 157 {
        (15u8, 6u8)
    } else if i == 158 {
        (15u8, 7u8)
    } else if i == 159 {
        (15u8, 8u8)
    } else if i == 160 {
        (15u8, 9u8)
    } else if i == 161 {
        (15u8, 10u8)
    } else {
        (255u8, 255u8)
    }
}

/// The position of an AC table entry in `ac_order`.
pub open spec fn ac_rank(run: u8, cat: u8) -> int {
    if run == 0 {
        if cat == 0 {
            3
        } else if cat == 1 {
            0
        } else if cat == 2 {
            1
        } else if cat == 3 {
            2
        } else if cat == 4 {
            4
        } else if cat == 5 {
            6
        } else if cat == 6 {
            11
        } else if cat == 7 {
            15
        } else if cat == 8 {
            23
        } else if cat == 9 {
            37
        } else if cat == 10 {
            38
        } else {
            -1
        }
    } else if run == 1 {
        if cat == 1 {
            5
        } else if cat == 2 {
            7
        } else if cat == 3 {
            12
        } else if cat == 4 {
            18
        } else if cat == 5 {
            28
        } else if cat == 6 {
            39
        } else if cat == 7 {
            40
        } else if cat == 8 {
            41
        } else if cat == 9 {
            42
        } else if cat == 10 {
            43
        } else {
            -1
        }
    } else if run == 2 {
        if cat == 1 {
            8
        } else if cat == 2 {
            16
        } else if cat == 3 {
            24
        } else if cat == 4 {
            32
        } else if cat == 5 {
            44
        } else if cat == 6 {
            45
        } else if cat == 7 {
            46
        } else if cat == 8 {
            47
        } else if cat == 9 {
            48
        } else if cat == 10 {
            49
        } else {
            -1
        }
    } else if run == 3 {
        if cat == 1 {
            9
        } else if cat == 2 {
            19
        } else if cat == 3 {
            33
        } else if cat == 4 {
            50
        } else if cat == 5 {
            51
        } else if cat == 6 {
            52
        } else if cat == 7 {
            53
        } else if cat == 8 {
            54
        } else if cat == 9 {
            55
        } else if cat == 10 {
            56
        } else {
            -1
        }
    } else if run == 4 {
        if cat == 1 {
            10
        } else if cat == 2 {
            25
        } else if cat == 3 {
            57
        } else if cat == 4 {
            58
        } else if cat == 5 {
            59
        } else if cat == 6 {
            60
        } else if cat == 7 {
            61
        } else if cat == 8 {
            62
        } else if cat == 9 {
            63
        } else if cat == 10 {
            64
        } else {
            -1
        }
    } else if run == 5 {
        if cat == 1 {
            13
        } else if cat == 2 {
            29
        } else if cat == 3 {
            65
        } else if cat == 4 {
            66
        } else if cat == 5 {
            67
        } else if cat == 6 {
            68
        } else if cat == 7 {
            69
        } else if cat == 8 {
            70
        } else if cat == 9 {
            71
        } else if cat == 10 {
            72
        } else {
            -1
        }
    } else if run == 6 {
        if cat == 1 {
            14
        } else if cat == 2 {
            34
        } else if cat == 3 {
            73
        } else if cat == 4 {
            74
        } else if cat == 5 {
            75
        } else if cat == 6 {
            76
        } else if cat == 7 {
            77
        } else if cat == 8 {
            78
        } else if cat == 9 {
            79
        } else if cat == 10 {
            80
        } else {
            -1
        }
    } else if run == 7 {
        if cat == 1 {
            17
        } else if cat == 2 {
            35
        } else if cat == 3 {
            81
        } else if cat == 4 {
            82
        } else if cat == 5 {
            83
        } else if cat == 6 {
            84
        } else if cat == 7 {
            85
        } else if cat == 8 {
            86
        } else if cat == 9 {
            87
        } else if cat == 10 {
            88
        } else {
            -1
        }
    } else if run == 8 {
        if cat == 1 {
            20
        } else if cat == 2 {
            36
        } else if cat == 3 {
            89
        } else if cat == 4 {
            90
        } else if cat == 5 {
            91
        } else if cat == 6 {
            92
        } else if cat == 7 {
            93
        } else if cat == 8 {
            94
        } else if cat == 9 {
            95
        } else if cat == 10 {
            96
        } else {
            -1
        }
    } else if run == 9 {
        if cat == 1 {
            21
        } else if cat == 2 {
            97
        } else if cat == 3 {
            98
        } else if cat == 4 {
            99
        } else if cat == 5 {
            100
        } else if cat == 6 {
            101
        } else if cat == 7 {
            102
        } else if cat == 8 {
            103
        } else if cat == 9 {
            104
        } else if cat == 10 {
            105
        } else {
            -1
        }
    } else if run == 10 {
        if cat == 1 {
            22
        } else if cat == 2 {
            106
        } else if cat == 3 {
            107
        } else if cat == 4 {
            108
        } else if cat == 5 {
            109
        } else if cat == 6 {
            110
        } else if cat == 7 {
            111
        } else if cat == 8 {
            112
        } else if cat == 9 {
            113
        } else if cat == 10 {
            114
        } else {
            -1
        }
    } else if run == 11 {
        if cat == 1 {
            26
        } else if cat == 2 {
            115
        } else if cat == 3 {
            116
        } else if cat == 4 {
            117
        } else if cat == 5 {
            118
        } else if cat == 6 {
            119
        } else if cat == 7 {
            120
        } else if cat == 8 {
            121
        } else if cat == 9 {
            122
        } else if cat == 10 {
            123
        } else {
            -1
        }
    } else if run == 12 {
        if cat == 1 {
            27
        } else if cat == 2 {
            124
        } else if cat == 3 {
            125
        } else if cat == 4 {
            126
        } else if cat == 5 {
            127
        } else if cat == 6 {
            128
        } else if cat == 7 {
            129
        } else if cat == 8 {
            130
        } else if cat == 9 {
            131
        } else if cat == 10 {
            132
        } else {
            -1
        }
    } else if run == 13 {
        if cat == 1 {
            30
        } else if cat == 2 {
            133
        } else if cat == 3 {
            134
        } else if cat == 4 {
            135
        } else if cat == 5 {
            136
        } else if cat == 6 {
            137
        } else if cat == 7 {
            138
        } else if cat == 8 {
            139
        } else if cat == 9 {
            140
        } else if cat == 10 {
            141
        } else {
            -1
        }
    } else if run == 14 {
        if cat == 1 {
            142
        } else if cat == 2 {
            143
        } else if cat == 3 {
            144
        } else if cat == 4 {
            145
        } else if cat == 5 {
            146
        } else if cat == 6 {
            147
        } else if cat == 7 {
            148
        } else if cat == 8 {
            149
        } else if cat == 9 {
            150
        } else if cat == 10 {
            151
        } else {
            -1
        }
    } else if run == 15 {
        if cat == 0 {
            31
        } else if cat == 1 {
            152
        } else if cat == 2 {
            153
        } else if cat == 3 {
            154
        } else if cat == 4 {
            155
        } else if cat == 5 {
            156
        } else if cat == 6 {
            157
        } else if cat == 7 {
            158
        } else if cat == 8 {
            159
        } else if cat == 9 {
            160
        } else if cat == 10 {
            161
        } else {
            -1
        }
    } else {
        -1
    }
}

/// Powers of two up to 2^16.
proof fn lemma_pow2_16()
    ensures
        pow2(0) == 1, pow2(1) == 2, pow2(2) == 4, pow2(3) == 8, pow2(4) == 16, pow2(5) == 32,
        pow2(6) == 64, pow2(7) == 128, pow2(8) == 256, pow2(9) == 512, pow2(10) == 1024,
        pow2(11) == 2048, pow2(12) == 4096, pow2(13) == 8192, pow2(14) == 16384,
        pow2(15) == 32768, pow2(16) == 65536,
{
    lemma2_to64();
}

/// Each position of the AC order holds a code of the table.
proof fn lemma_ac_order_entry(i: int)
    requires
        0 <= i < 162,
    ensures
        ac_code_spec(ac_order(i).0, ac_order(i).1) is Some,
        ac_rank(ac_order(i).0, ac_order(i).1) == i,
{
}

/// Each code of the AC table has its rank in the AC order.
proof fn lemma_ac_rank_entry(run: u8, cat: u8)
    requires
        ac_code_spec(run, cat) is Some,
    ensures
        0 <= ac_rank(run, cat) < 162,
        ac_order(ac_rank(run, cat)) == (run, cat),
{
}

/// Consecutive codes of the AC order cover consecutive ranges of windows.
proof fn lemma_ac_order_step(i: int)
    requires
        0 <= i < 161,
    ensures
        code_end(ac_code_spec(ac_order(i).0, ac_order(i).1)->0) <= code_start(
            ac_code_spec(ac_order(i + 1).0, ac_order(i + 1).1)->0,
        ),
{
    lemma_pow2_16();
    if i == 0 {
        assert(ac_order(0) == (0u8, 1u8) && ac_order(1) == (0u8, 2u8));
        assert(ac_code_spec(0u8, 1u8) == Some(HuffCode { code: 0b00, len: 2 }));
        assert(ac_code_spec(0u8, 2u8) == Some(HuffCode { code: 0b01, len: 2 }));
        assert(code_end(HuffCode { code: 0b00, len: 2 }) == 16384);
        assert(code_start(HuffCode { code: 0b01, len: 2 }) == 16384);
    } else if i == 1 {
        assert(ac_order(1) == (0u8, 2u8) && ac_order(2) == (0u8, 3u8));
        assert(ac_code_spec(0u8, 2u8) == Some(HuffCode { code: 0b01, len: 2 }));
        assert(ac_code_spec(0u8, 3u8) == Some(HuffCode { code: 0b100, len: 3 }));
        assert(code_end(HuffCode { code: 0b01, len: 2 }) == 32768);
        assert(code_start(HuffCode { code: 0b100, len: 3 }) == 32768);
    } else if i == 2 {
        assert(ac_order(2) == (0u8, 3u8) && ac_order(3) == (0u8, 0u8));
        assert(ac_code_spec(0u8, 3u8) == Some(HuffCode { code: 0b100, len: 3 }));
        assert(ac_code_spec(0u8, 0u8) == Some(HuffCode { code: 0b1010, len: 4 }));
        assert(code_end(HuffCode { code: 0b100, len: 3 }) == 40960);
        assert(code_start(HuffCode { code: 0b1010, len: 4 }) == 40960);
    } else if i == 3 {
        assert(ac_order(3) == (0u8, 0u8) && ac_order(4) == (0u8, 4u8));
        assert(ac_code_spec(0u8, 0u8) == Some(HuffCode { code: 0b1010, len: 4 }));
        assert(ac_code_spec(0u8, 4u8) == Some(HuffCode { code: 0b1011, len: 4 }));
        assert(code_end(HuffCode { code: 0b1010, len: 4 }) == 45056);
        assert(code_start(HuffCode { code: 0b1011, len: 4 }) == 45056);
    } else if i == 4 {
        assert(ac_order(4) == (0u8, 4u8) && ac_order(5) == (1u8, 1u8));
        assert(ac_code_spec(0u8, 4u8) == Some(HuffCode { code: 0b1011, len: 4 }));
        assert(ac_code_spec(1u8, 1u8) == Some(HuffCode { code: 0b1100, len: 4 }));
        assert(code_end(HuffCode { code: 0b1011, len: 4 }) == 49152);
        assert(code_start(HuffCode { code: 0b1100, len: 4 }) == 49152);
    } else if i == 5 {
        assert(ac_order(5) == (1u8, 1u8) && ac_order(6) == (0u8, 5u8));
        assert(ac_code_spec(1u8, 1u8) == Some(HuffCode { code: 0b1100, len: 4 }));
        assert(ac_code_spec(0u8, 5u8) == Some(HuffCode { code: 0b11010, len: 5 }));
        assert(code_end(HuffCode { code: 0b1100, len: 4 }) == 53248);
        assert(code_start(HuffCode { code: 0b11010, len: 5 }) == 53248);
    } else if i == 6 {
        assert(ac_order(6) == (0u8, 5u8) && ac_order(7) == (1u8, 2u8));
        assert(ac_code_spec(0u8, 5u8) == Some(HuffCode { code: 0b11010, len: 5 }));
        assert(ac_code_spec(1u8, 2u8) == Some(HuffCode { code: 0b11011, len: 5 }));
        assert(code_end(HuffCode { code: 0b11010, len: 5 }) == 55296);
        assert(code_start(HuffCode { code: 0b11011, len: 5 }) == 55296);
    } else if i == 7 {
        assert(ac_order(7) == (1u8, 2u8) && ac_order(8) == (2u8, 1u8));
        assert(ac_code_spec(1u8, 2u8) == Some(HuffCode { code: 0b11011, len: 5 }));
        assert(ac_code_spec(2u8, 1u8) == Some(HuffCode { code: 0b11100, len: 5 }));
        assert(code_end(HuffCode { code: 0b11011, len: 5 }) == 57344);
        assert(code_start(HuffCode { code: 0b11100, len: 5 }) == 57344);
    } else if i == 8 {
        assert(ac_order(8) == (2u8, 1u8) && ac_order(9) == (3u8, 1u8));
        assert(ac_code_spec(2u8, 1u8) == Some(HuffCode { code: 0b11100, len: 5 }));
        assert(ac_code_spec(3u8, 1u8) == Some(HuffCode { code: 0b111010, len: 6 }));
        assert(code_end(HuffCode { code: 0b11100, len: 5 }) == 59392);
        assert(code_start(HuffCode { code: 0b111010, len: 6 }) == 59392);
    } else if i == 9 {
        assert(ac_order(9) == (3u8, 1u8) && ac_order(10) == (4u8, 1u8));
        assert(ac_code_spec(3u8, 1u8) == Some(HuffCode { code: 0b111010, len: 6 }));
        assert(ac_code_spec(4u8, 1u8) == Some(HuffCode { code: 0b111011, len: 6 }));
        assert(code_end(HuffCode { code: 0b111010, len: 6 }) == 60416);
        assert(code_start(HuffCode { code: 0b111011, len: 6 }) == 60416);
    } else if i == 10 {
        assert(ac_order(10) == (4u8, 1u8) && ac_order(11) == (0u8, 6u8));
        assert(ac_code_spec(4u8, 1u8) == Some(HuffCode { code: 0b111011, len: 6 }));
        assert(ac_code_spec(0u8, 6u8) == Some(HuffCode { code: 0b1111000, len: 7 }));
        assert(code_end(HuffCode { code: 0b111011, len: 6 }) == 61440);
        assert(code_start(HuffCode { code: 0b1111000, len: 7 }) == 61440);
    } else if i == 11 {
        assert(ac_order(11) == (0u8, 6u8) && ac_order(12) == (1u8, 3u8));
        assert(ac_code_spec(0u8, 6u8) == Some(HuffCode { code: 0b1111000, len: 7 }));
        assert(ac_code_spec(1u8, 3u8) == Some(HuffCode { code: 0b1111001, len: 7 }));
        assert(code_end(HuffCode { code: 0b1111000, len: 7 }) == 61952);
        assert(code_start(HuffCode { code: 0b1111001, len: 7 }) == 61952);
    } else if i == 12 {
        assert(ac_order(12) == (1u8, 3u8) && ac_order(13) == (5u8, 1u8));
        assert(ac_code_spec(1u8, 3u8) == Some(HuffCode { code: 0b1111001, len: 7 }));
        assert(ac_code_spec(5u8, 1u8) == Some(HuffCode { code: 0b1111010, len: 7 }));
        assert(code_end(HuffCode { code: 0b1111001, len: 7 }) == 62464);
        assert(code_start(HuffCode { code: 0b1111010, len: 7 }) == 62464);
    } else if i == 13 {
        assert(ac_order(13) == (5u8, 1u8) && ac_order(14) == (6u8, 1u8));
        assert(ac_code_spec(5u8, 1u8) == Some(HuffCode { code: 0b1111010, len: 7 }));
        assert(ac_code_spec(6u8, 1u8) == Some(HuffCode { code: 0b1111011, len: 7 }));
        assert(code_end(HuffCode { code: 0b1111010, len: 7 }) == 62976);
        assert(code_start(HuffCode { code: 0b1111011, len: 7 }) == 62976);
    } else if i == 14 {
        assert(ac_order(14) == (6u8, 1u8) && ac_order(15) == (0u8, 7u8));
        assert(ac_code_spec(6u8, 1u8) == Some(HuffCode { code: 0b1111011, len: 7 }));
        assert(ac_code_spec(0u8, 7u8) == Some(HuffCode { code: 0b11111000, len: 8 }));
        assert(code_end(HuffCode { code: 0b1111011, len: 7 }) == 63488);
        assert(code_start(HuffCode { code: 0b11111000, len: 8 }) == 63488);
    } else if i == 15 {
        assert(ac_order(15) == (0u8, 7u8) && ac_order(16) == (2u8, 2u8));
        assert(ac_code_spec(0u8, 7u8) == Some(HuffCode { code: 0b11111000, len: 8 }));
        assert(ac_code_spec(2u8, 2u8) == Some(HuffCode { code: 0b11111001, len: 8 }));
        assert(code_end(HuffCode { code: 0b11111000, len: 8 }) == 63744);
        assert(code_start(HuffCode { code: 0b11111001, len: 8 }) == 63744);
    } else if i == 16 {
        assert(ac_order(16) == (2u8, 2u8) && ac_order(17) == (7u8, 1u8));
        assert(ac_code_spec(2u8, 2u8) == Some(HuffCode { code: 0b11111001, len: 8 }));
        assert(ac_code_spec(7u8, 1u8) == Some(HuffCode { code: 0b11111010, len: 8 }));
        assert(code_end(HuffCode { code: 0b11111001, len: 8 }) == 64000);
        assert(code_start(HuffCode { code: 0b11111010, len: 8 }) == 64000);
    } else if i == 17 {
        assert(ac_order(17) == (7u8, 1u8) && ac_order(18) == (1u8, 4u8));
        assert(ac_code_spec(7u8, 1u8) == Some(HuffCode { code: 0b11111010, len: 8 }));
        assert(ac_code_spec(1u8, 4u8) == Some(HuffCode { code: 0b111110110, len: 9 }));
        assert(code_end(HuffCode { code: 0b11111010, len: 8 }) == 64256);
        assert(code_start(HuffCode { code: 0b111110110, len: 9 }) == 64256);
    } else if i == 18 {
        assert(ac_order(18) == (1u8, 4u8) && ac_order(19) == (3u8, 2u8));
        assert(ac_code_spec(1u8, 4u8) == Some(HuffCode { code: 0b111110110, len: 9 }));
        assert(ac_code_spec(3u8, 2u8) == Some(HuffCode { code: 0b111110111, len: 9 }));
        assert(code_end(HuffCode { code: 0b111110110, len: 9 }) == 64384);
        assert(code_start(HuffCode { code: 0b111110111, len: 9 }) == 64384);
    } else if i == 19 {
        assert(ac_order(19) == (3u8, 2u8) && ac_order(20) == (8u8, 1u8));
        assert(ac_code_spec(3u8, 2u8) == Some(HuffCode { code: 0b111110111, len: 9 }));
        assert(ac_code_spec(8u8, 1u8) == Some(HuffCode { code: 0b111111000, len: 9 }));
        assert(code_end(HuffCode { code: 0b111110111, len: 9 }) == 64512);
        assert(code_start(HuffCode { code: 0b111111000, len: 9 }) == 64512);
    } else if i == 20 {
        assert(ac_order(20) == (8u8, 1u8) && ac_order(21) == (9u8, 1u8));
        assert(ac_code_spec(8u8, 1u8) == Some(HuffCode { code: 0b111111000, len: 9 }));
        assert(ac_code_spec(9u8, 1u8) == Some(HuffCode { code: 0b111111001, len: 9 }));
        assert(code_end(HuffCode { code: 0b111111000, len: 9 }) == 64640);
        assert(code_start(HuffCode { code: 0b111111001, len: 9 }) == 64640);
    } else if i == 21 {
        assert(ac_order(21) == (9u8, 1u8) && ac_order(22) == (10u8, 1u8));
        assert(ac_code_spec(9u8, 1u8) == Some(HuffCode { code: 0b111111001, len: 9 }));
        assert(ac_code_spec(10u8, 1u8) == Some(HuffCode { code: 0b111111010, len: 9 }));
        assert(code_end(HuffCode { code: 0b111111001, len: 9 }) == 64768);
        assert(code_start(HuffCode { code: 0b111111010, len: 9 }) == 64768);
    } else if i == 22 {
        assert(ac_order(22) == (10u8, 1u8) && ac_order(23) == (0u8, 8u8));
        assert(ac_code_spec(10u8, 1u8) == Some(HuffCode { code: 0b111111010, len: 9 }));
        assert(ac_code_spec(0u8, 8u8) == Some(HuffCode { code: 0b1111110110, len: 10 }));
        assert(code_end(HuffCode { code: 0b111111010, len: 9 }) == 64896);
        assert(code_start(HuffCode { code: 0b1111110110, len: 10 }) == 64896);
    } else if i == 23 {
        assert(ac_order(23) == (0u8, 8u8) && ac_order(24) == (2u8, 3u8));
        assert(ac_code_spec(0u8, 8u8) == Some(HuffCode { code: 0b1111110110, len: 10 }));
        assert(ac_code_spec(2u8, 3u8) == Some(HuffCode { code: 0b1111110111, len: 10 }));
        assert(code_end(HuffCode { code: 0b1111110110, len: 10 }) == 64960);
        assert(code_start(HuffCode { code: 0b1111110111, len: 10 }) == 64960);
    } else if i == 24 {
        assert(ac_order(24) == (2u8, 3u8) && ac_order(25) == (4u8, 2u8));
        assert(ac_code_spec(2u8, 3u8) == Some(HuffCode { code: 0b1111110111, len: 10 }));
        assert(ac_code_spec(4u8, 2u8) == Some(HuffCode { code: 0b1111111000, len: 10 }));
        assert(code_end(HuffCode { code: 0b1111110111, len: 10 }) == 65024);
        assert(code_start(HuffCode { code: 0b1111111000, len: 10 }) == 65024);
    } else if i == 25 {
        assert(ac_order(25) == (4u8, 2u8) && ac_order(26) == (11u8, 1u8));
        assert(ac_code_spec(4u8, 2u8) == Some(HuffCode { code: 0b1111111000, len: 10 }));
        assert(ac_code_spec(11u8, 1u8) == Some(HuffCode { code: 0b1111111001, len: 10 }));
        assert(code_end(HuffCode { code: 0b1111111000, len: 10 }) == 65088);
        assert(code_start(HuffCode { code: 0b1111111001, len: 10 }) == 65088);
    } else if i == 26 {
        assert(ac_order(26) == (11u8, 1u8) && ac_order(27) == (12u8, 1u8));
        assert(ac_code_spec(11u8, 1u8) == Some(HuffCode { code: 0b1111111001, len: 10 }));
        assert(ac_code_spec(12u8, 1u8) == Some(HuffCode { code: 0b1111111010, len: 10 }));
        assert(code_end(HuffCode { code: 0b1111111001, len: 10 }) == 65152);
        assert(code_start(HuffCode { code: 0b1111111010, len: 10 }) == 65152);
    } else if i == 27 {
        assert(ac_order(27) == (12u8, 1u8) && ac_order(28) == (1u8, 5u8));
        assert(ac_code_spec(12u8, 1u8) == Some(HuffCode { code: 0b1111111010, len: 10 }));
        assert(ac_code_spec(1u8, 5u8) == Some(HuffCode { code: 0b11111110110, len: 11 }));
        assert(code_end(HuffCode { code: 0b1111111010, len: 10 }) == 65216);
        assert(code_start(HuffCode { code: 0b11111110110, len: 11 }) == 65216);
    } else if i == 28 {
        assert(ac_order(28) == (1u8, 5u8) && ac_order(29) == (5u8, 2u8));
        assert(ac_code_spec(1u8, 5u8) == Some(HuffCode { code: 0b11111110110, len: 11 }));
        assert(ac_code_spec(5u8, 2u8) == Some(HuffCode { code: 0b11111110111, len: 11 }));
        assert(code_end(HuffCode { code: 0b11111110110, len: 11 }) == 65248);
        assert(code_start(HuffCode { code: 0b11111110111, len: 11 }) == 65248);
    } else if i == 29 {
        assert(ac_order(29) == (5u8, 2u8) && ac_order(30) == (13u8, 1u8));
        assert(ac_code_spec(5u8, 2u8) == Some(HuffCode { code: 0b11111110111, len: 11 }));
        assert(ac_code_spec(13u8, 1u8) == Some(HuffCode { code: 0b11111111000, len: 11 }));
        assert(code_end(HuffCode { code: 0b11111110111, len: 11 }) == 65280);
        assert(code_start(HuffCode { code: 0b11111111000, len: 11 }) == 65280);
    } else if i == 30 {
        assert(ac_order(30) == (13u8, 1u8) && ac_order(31) == (15u8, 0u8));
        assert(ac_code_spec(13u8, 1u8) == Some(HuffCode { code: 0b11111111000, len: 11 }));
        assert(ac_code_spec(15u8, 0u8) == Some(HuffCode { code: 0b11111111001, len: 11 }));
        assert(code_end(HuffCode { code: 0b11111111000, len: 11 }) == 65312);
        assert(code_start(HuffCode { code: 0b11111111001, len: 11 }) == 65312);
    } else if i == 31 {
        assert(ac_order(31) == (15u8, 0u8) && ac_order(32) == (2u8, 4u8));
        assert(ac_code_spec(15u8, 0u8) == Some(HuffCode { code: 0b11111111001, len: 11 }));
        assert(ac_code_spec(2u8, 4u8) == Some(HuffCode { code: 0b111111110100, len: 12 }));
        assert(code_end(HuffCode { code: 0b11111111001, len: 11 }) == 65344);
        assert(code_start(HuffCode { code: 0b111111110100, len: 12 }) == 65344);
    } else if i == 32 {
        assert(ac_order(32) == (2u8, 4u8) && ac_order(33) == (3u8, 3u8));
        assert(ac_code_spec(2u8, 4u8) == Some(HuffCode { code: 0b111111110100, len: 12 }));
        assert(ac_code_spec(3u8, 3u8) == Some(HuffCode { code: 0b111111110101, len: 12 }));
        assert(code_end(HuffCode { code: 0b111111110100, len: 12 }) == 65360);
        assert(code_start(HuffCode { code: 0b111111110101, len: 12 }) == 65360);
    } else if i == 33 {
        assert(ac_order(33) == (3u8, 3u8) && ac_order(34) == (6u8, 2u8));
        assert(ac_code_spec(3u8, 3u8) == Some(HuffCode { code: 0b111111110101, len: 12 }));
        assert(ac_code_spec(6u8, 2u8) == Some(HuffCode { code: 0b111111110110, len: 12 }));
        assert(code_end(HuffCode { code: 0b111111110101, len: 12 }) == 65376);
        assert(code_start(HuffCode { code: 0b111111110110, len: 12 }) == 65376);
    } else if i == 34 {
        assert(ac_order(34) == (6u8, 2u8) && ac_order(35) == (7u8, 2u8));
        assert(ac_code_spec(6u8, 2u8) == Some(HuffCode { code: 0b111111110110, len: 12 }));
        assert(ac_code_spec(7u8, 2u8) == Some(HuffCode { code: 0b111111110111, len: 12 }));
        assert(code_end(HuffCode { code: 0b111111110110, len: 12 }) == 65392);
        assert(code_start(HuffCode { code: 0b111111110111, len: 12 }) == 65392);
    } else if i == 35 {
        assert(ac_order(35) == (7u8, 2u8) && ac_order(36) == (8u8, 2u8));
        assert(ac_code_spec(7u8, 2u8) == Some(HuffCode { code: 0b111111110111, len: 12 }));
        assert(ac_code_spec(8u8, 2u8) == Some(HuffCode { code: 0b111111111000000, len: 15 }));
        assert(code_end(HuffCode { code: 0b111111110111, len: 12 }) == 65408);
        assert(code_start(HuffCode { code: 0b111111111000000, len: 15 }) == 65408);
    } else if i == 36 {
        assert(ac_order(36) == (8u8, 2u8) && ac_order(37) == (0u8, 9u8));
        assert(ac_code_spec(8u8, 2u8) == Some(HuffCode { code: 0b111111111000000, len: 15 }));
        assert(ac_code_spec(0u8, 9u8) == Some(HuffCode { code: 0b1111111110000010, len: 16 }));
        assert(code_end(HuffCode { code: 0b111111111000000, len: 15 }) == 65410);
        assert(code_start(HuffCode { code: 0b1111111110000010, len: 16 }) == 65410);
    } else if i == 37 {
        assert(ac_order(37) == (0u8, 9u8) && ac_order(38) == (0u8, 10u8));
        assert(ac_code_spec(0u8, 9u8) == Some(HuffCode { code: 0b1111111110000010, len: 16 }));
        assert(ac_code_spec(0u8, 10u8) == Some(HuffCode { code: 0b1111111110000011, len: 16 }));
        assert(code_end(HuffCode { code: 0b1111111110000010, len: 16 }) == 65411);
        assert(code_start(HuffCode { code: 0b1111111110000011, len: 16 }) == 65411);
    } else if i == 38 {
        assert(ac_order(38) == (0u8, 10u8) && ac_order(39) == (1u8, 6u8));
        assert(ac_code_spec(0u8, 10u8) == Some(HuffCode { code: 0b1111111110000011, len: 16 }));
        assert(ac_code_spec(1u8, 6u8) == Some(HuffCode { code: 0b1111111110000100, len: 16 }));
        assert(code_end(HuffCode { code: 0b1111111110000011, len: 16 }) == 65412);
        assert(code_start(HuffCode { code: 0b1111111110000100, len: 16 }) == 65412);
    } else if i == 39 {
        assert(ac_order(39) == (1u8, 6u8) && ac_order(40) == (1u8, 7u8));
        assert(ac_code_spec(1u8, 6u8) == Some(HuffCode { code: 0b1111111110000100, len: 16 }));
        assert(ac_code_spec(1u8, 7u8) == Some(HuffCode { code: 0b1111111110000101, len: 16 }));
        assert(code_end(HuffCode { code: 0b1111111110000100, len: 16 }) == 65413);
        assert(code_start(HuffCode { code: 0b1111111110000101, len: 16 }) == 65413);
    } else if i == 40 {
        assert(ac_order(40) == (1u8, 7u8) && ac_order(41) == (1u8, 8u8));
        assert(ac_code_spec(1u8, 7u8) == Some(HuffCode { code: 0b1111111110000101, len: 16 }));
        assert(ac_code_spec(1u8, 8u8) == Some(HuffCode { code: 0b1111111110000110, len: 16 }));
        assert(code_end(HuffCode { code: 0b1111111110000101, len: 16 }) == 65414);
        assert(code_start(HuffCode { code: 0b1111111110000110, len: 16 }) == 65414);
    } else if i == 41 {
        assert(ac_order(41) == (1u8, 8u8) && ac_order(42) == (1u8, 9u8));
        assert(ac_code_spec(1u8, 8u8) == Some(HuffCode { code: 0b1111111110000110, len: 16 }));
        assert(ac_code_spec(1u8, 9u8) == Some(HuffCode { code: 0b1111111110000111, len: 16 }));
        assert(code_end(HuffCode { code: 0b1111111110000110, len: 16 }) == 65415);
        assert(code_start(HuffCode { code: 0b1111111110000111, len: 16 }) == 65415);
    } else if i == 42 {
        assert(ac_order(42) == (1u8, 9u8) && ac_order(43) == (1u8, 10u8));
        assert(ac_code_spec(1u8, 9u8) == Some(HuffCode { code: 0b1111111110000111, len: 16 }));
        assert(ac_code_spec(1u8, 10u8) == Some(HuffCode { code: 0b1111111110001000, len: 16 }));
        assert(code_end(HuffCode { code: 0b1111111110000111, len: 16 }) == 65416);
        assert(code_start(HuffCode { code: 0b1111111110001000, len: 16 }) == 65416);
    } else if i == 43 {
        assert(ac_order(43) == (1u8, 10u8) && ac_order(44) == (2u8, 5u8));
        assert(ac_code_spec(1u8, 10u8) == Some(HuffCode { code: 0b1111111110001000, len: 16 }));
        assert(ac_code_spec(2u8, 5u8) == Some(HuffCode { code: 0b1111111110001001, len: 16 }));
        assert(code_end(HuffCode { code: 0b1111111110001000, len: 16 }) == 65417);
        assert(code_start(HuffCode { code: 0b1111111110001001, len: 16 }) == 65417);
    } else if i == 44 {
        assert(ac_order(44) == (2u8, 5u8) && ac_order(45) == (2u8, 6u8));
        assert(ac_code_spec(2u8, 5u8) == Some(HuffCode { code: 0b1111111110001001, len: 16 }));
        assert(ac_code_spec(2u8, 6u8) == Some(HuffCode { code: 0b1111111110001010, len: 16 }));
        assert(code_end(HuffCode { code: 0b1111111110001001, len: 16 }) == 65418);
        assert(code_start(HuffCode { code: 0b1111111110001010, len: 16 }) == 65418);
    } else if i == 45 {
        assert(ac_order(45) == (2u8, 6u8) && ac_order(46) == (2u8, 7u8));
        assert(ac_code_spec(2u8, 6u8) == Some(HuffCode { code: 0b1111111110001010, len: 16 }));
        assert(ac_code_spec(2u8, 7u8) == Some(HuffCode { code: 0b1111111110001011, len: 16 }));
        assert(code_end(HuffCode { code: 0b1111111110001010, len: 16 }) == 65419);
        assert(code_start(HuffCode { code: 0b1111111110001011, len: 16 }) == 65419);
    } else if i == 46 {
        assert(ac_order(46) == (2u8, 7u8) && ac_order(47) == (2u8, 8u8));
        assert(ac_code_spec(2u8, 7u8) == Some(HuffCode { code: 0b1111111110001011, len: 16 }));
        assert(ac_code_spec(2u8, 8u8) == Some(HuffCode { code: 0b1111111110001100, len: 16 }));
        assert(code_end(HuffCode { code: 0b1111111110001011, len: 16 }) == 65420);
        assert(code_start(HuffCode { code: 0b1111111110001100, len: 16 }) == 65420);
    } else if i == 47 {
        assert(ac_order(47) == (2u8, 8u8) && ac_order(48) == (2u8, 9u8));
        assert(ac_code_spec(2u8, 8u8) == Some(HuffCode { code: 0b1111111110001100, len: 16 }));
        assert(ac_code_spec(2u8, 9u8) == Some(HuffCode { code: 0b1111111110001101, len: 16 }));
        assert(code_end(HuffCode { code: 0b1111111110001100, len: 16 }) == 65421);
        assert(code_start(HuffCode { code: 0b1111111110001101, len: 16 }) == 65421);
    } else if i == 48 {
        assert(ac_order(48) == (2u8, 9u8) && ac_order(49) == (2u8, 10u8));
        assert(ac_code_spec(2u8, 9u8) == Some(HuffCode { code: 0b1111111110001101, len: 16 }));
        assert(ac_code_spec(2u8, 10u8) == Some(HuffCode { code: 0b1111111110001110, len: 16 }));
        assert(code_end(HuffCode { code: 0b1111111110001101, len: 16 }) == 65422);
        assert(code_start(HuffCode { code: 0b1111111110001110, len: 16 }) == 65422);
    } else if i == 49 {
        assert(ac_order(49) == (2u8, 10u8) && ac_order(50) == (3u8, 4u8));
        assert(ac_code_spec(2u8, 10u8) == Some(HuffCode { code: 0b1111111110001110, len: 16 }));
        assert(ac_code_spec(3u8, 4u8) == Some(HuffCode { code: 0b1111111110001111, len: 16 }));
        assert(code_end(HuffCode { code: 0b1111111110001110, len: 16 }) == 65423);
        assert(code_start(HuffCode { code: 0b1111111110001111, len: 16 }) == 65423);
    } else if i == 50 {
        assert(ac_order(50) == (3u8, 4u8) && ac_order(51) == (3u8, 5u8));
        assert(ac_code_spec(3u8, 4u8) == Some(HuffCode { code: 0b1111111110001111, len: 16 }));
        assert(ac_code_spec(3u8, 5u8) == Some(HuffCode { code: 0b1111111110010000, len: 16 }));
        assert(code_end(HuffCode { code: 0b1111111110001111, len: 16 }) == 65424);
        assert(code_start(HuffCode { code: 0b1111111110010000, len: 16 }) == 65424);
    } else if i == 51 {
        assert(ac_order(51) == (3u8, 5u8) && ac_order(52) == (3u8, 6u8));
        assert(ac_code_spec(3u8, 5u8) == Some(HuffCode { code: 0b1111111110010000, len: 16 }));
        assert(ac_code_spec(3u8, 6u8) == Some(HuffCode { code: 0b1111111110010001, len: 16 }));
        assert(code_end(HuffCode { code: 0b1111111110010000, len: 16 }) == 65425);
        assert(code_start(HuffCode { code: 0b1111111110010001, len: 16 }) == 65425);
    } else if i == 52 {
        assert(ac_order(52) == (3u8, 6u8) && ac_order(53) == (3u8, 7u8));
        assert(ac_code_spec(3u8, 6u8) == Some(HuffCode { code: 0b1111111110010001, len: 16 }));
        assert(ac_code_spec(3u8, 7u8) == Some(HuffCode { code: 0b1111111110010010, len: 16 }));
        assert(code_end(HuffCode { code: 0b1111111110010001, len: 16 }) == 65426);
        assert(code_start(HuffCode { code: 0b1111111110010010, len: 16 }) == 65426);
    } else if i == 53 {
        assert(ac_order(53) == (3u8, 7u8) && ac_order(54) == (3u8, 8u8));
        assert(ac_code_spec(3u8, 7u8) == Some(HuffCode { code: 0b1111111110010010, len: 16 }));
        assert(ac_code_spec(3u8, 8u8) == Some(HuffCode { code: 0b1111111110010011, len: 16 }));
        assert(code_end(HuffCode { code: 0b1111111110010010, len: 16 }) == 65427);
        assert(code_start(HuffCode { code: 0b1111111110010011, len: 16 }) == 65427);
    } else if i == 54 {
        assert(ac_order(54) == (3u8, 8u8) && ac_order(55) == (3u8, 9u8));
        assert(ac_code_spec(3u8, 8u8) == Some(HuffCode { code: 0b1111111110010011, len: 16 }));
        assert(ac_code_spec(3u8, 9u8) == Some(HuffCode { code: 0b1111111110010100, len: 16 }));
        assert(code_end(HuffCode { code: 0b1111111110010011, len: 16 }) == 65428);
        assert(code_start(HuffCode { code: 0b1111111110010100, len: 16 }) == 65428);
    } else if i == 55 {
        assert(ac_order(55) == (3u8, 9u8) && ac_order(56) == (3u8, 10u8));
        assert(ac_code_spec(3u8, 9u8) == Some(HuffCode { code: 0b1111111110010100, len: 16 }));
        assert(ac_code_spec(3u8, 10u8) == Some(HuffCode { code: 0b1111111110010101, len: 16 }));
        assert(code_end(HuffCode { code: 0b1111111110010100, len: 16 }) == 65429);
        assert(code_start(HuffCode { code: 0b1111111110010101, len: 16 }) == 65429);
    } else if i == 56 {
        assert(ac_order(56) == (3u8, 10u8) && ac_order(57) == (4u8, 3u8));
        assert(ac_code_spec(3u8, 10u8) == Some(HuffCode { code: 0b1111111110010101, len: 16 }));
        assert(ac_code_spec(4u8, 3u8) == Some(HuffCode { code: 0b1111111110010110, len: 16 }));
        assert(code_end(HuffCode { code: 0b1111111110010101, len: 16 }) == 65430);
        assert(code_start(HuffCode { code: 0b1111111110010110, len: 16 }) == 65430);
    } else if i == 57 {
        assert(ac_order(57) == (4u8, 3u8) && ac_order(58) == (4u8, 4u8));
        assert(ac_code_spec(4u8, 3u8) == Some(HuffCode { code: 0b1111111110010110, len: 16 }));
        assert(ac_code_spec(4u8, 4u8) == Some(HuffCode { code: 0b1111111110010111, len: 16 }));
        assert(code_end(HuffCode { code: 0b1111111110010110, len: 16 }) == 65431);
        assert(code_start(HuffCode { code: 0b1111111110010111, len: 16 }) == 65431);
    } else if i == 58 {
        assert(ac_order(58) == (4u8, 4u8) && ac_order(59) == (4u8, 5u8));
        assert(ac_code_spec(4u8, 4u8) == Some(HuffCode { code: 0b1111111110010111, len: 16 }));
        assert(ac_code_spec(4u8, 5u8) == Some(HuffCode { code: 0b1111111110011000, len: 16 }));
        assert(code_end(HuffCode { code: 0b1111111110010111, len: 16 }) == 65432);
        assert(code_start(HuffCode { code: 0b1111111110011000, len: 16 }) == 65432);
    } else if i == 59 {
        assert(ac_order(59) == (4u8, 5u8) && ac_order(60) == (4u8, 6u8));
        assert(ac_code_spec(4u8, 5u8) == Some(HuffCode { code: 0b1111111110011000, len: 16 }));
        assert(ac_code_spec(4u8, 6u8) == Some(HuffCode { code: 0b1111111110011001, len: 16 }));
        assert(code_end(HuffCode { code: 0b1111111110011000, len: 16 }) == 65433);
        assert(code_start(HuffCode { code: 0b1111111110011001, len: 16 }) == 65433);
    } else if i == 60 {
        assert(ac_order(60) == (4u8, 6u8) && ac_order(61) == (4u8, 7u8));
        assert(ac_code_spec(4u8, 6u8) == Some(HuffCode { code: 0b1111111110011001, len: 16 }));
        assert(ac_code_spec(4u8, 7u8) == Some(HuffCode { code: 0b1111111110011010, len: 16 }));
        assert(code_end(HuffCode { code: 0b1111111110011001, len: 16 }) == 65434);
        assert(code_start(HuffCode { code: 0b1111111110011010, len: 16 }) == 65434);
    } else if i == 61 {
        assert(ac_order(61) == (4u8, 7u8) && ac_order(62) == (4u8, 8u8));
        assert(ac_code_spec(4u8, 7u8) == Some(HuffCode { code: 0b1111111110011010, len: 16 }));
        assert(ac_code_spec(4u8, 8u8) == Some(HuffCode { code: 0b1111111110011011, len: 16 }));
        assert(code_end(HuffCode { code: 0b1111111110011010, len: 16 }) == 65435);
        assert(code_start(HuffCode { code: 0b1111111110011011, len: 16 }) == 65435);
    } else if i == 62 {
        assert(ac_order(62) == (4u8, 8u8) && ac_order(63) == (4u8, 9u8));
        assert(ac_code_spec(4u8, 8u8) == Some(HuffCode { code: 0b1111111110011011, len: 16 }));
        assert(ac_code_spec(4u8, 9u8) == Some(HuffCode { code: 0b1111111110011100, len: 16 }));
        assert(code_end(HuffCode { code: 0b1111111110011011, len: 16 }) == 65436);
        assert(code_start(HuffCode { code: 0b1111111110011100, len: 16 }) == 65436);
    } else if i == 63 {
        assert(ac_order(63) == (4u8, 9u8) && ac_order(64) == (4u8, 10u8));
        assert(ac_code_spec(4u8, 9u8) == Some(HuffCode { code: 0b1111111110011100, len: 16 }));
        assert(ac_code_spec(4u8, 10u8) == Some(HuffCode { code: 0b1111111110011101, len: 16 }));
        assert(code_end(HuffCode { code: 0b1111111110011100, len: 16 }) == 65437);
        assert(code_start(HuffCode { code: 0b1111111110011101, len: 16 }) == 65437);
    } else if i == 64 {
        assert(ac_order(64) == (4u8, 10u8) && ac_order(65) == (5u8, 3u8));
        assert(ac_code_spec(4u8, 10u8) == Some(HuffCode { code: 0b1111111110011101, len: 16 }));
        assert(ac_code_spec(5u8, 3u8) == Some(HuffCode { code: 0b1111111110011110, len: 16 }));
        assert(code_end(HuffCode { code: 0b1111111110011101, len: 16 }) == 65438);
        assert(code_start(HuffCode { code: 0b1111111110011110, len: 16 }) == 65438);
    } else if i == 65 {
        assert(ac_order(65) == (5u8, 3u8) && ac_order(66) == (5u8, 4u8));
        assert(ac_code_spec(5u8, 3u8) == Some(HuffCode { code: 0b1111111110011110, len: 16 }));
        assert(ac_code_spec(5u8, 4u8) == Some(HuffCode { code: 0b1111111110011111, len: 16 }));
        assert(code_end(HuffCode { code: 0b1111111110011110, len: 16 }) == 65439);
        assert(code_start(HuffCode { code: 0b1111111110011111, len: 16 }) == 65439);
    } else if i == 66 {
        assert(ac_order(66) == (5u8, 4u8) && ac_order(67) == (5u8, 5u8));
        assert(ac_code_spec(5u8, 4u8) == Some(HuffCode { code: 0b1111111110011111, len: 16 }));
        assert(ac_code_spec(5u8, 5u8) == Some(HuffCode { code: 0b1111111110100000, len: 16 }));
        assert(code_end(HuffCode { code: 0b1111111110011111, len: 16 }) == 65440);
        assert(code_start(HuffCode { code: 0b1111111110100000, len: 16 }) == 65440);
    } else if i == 67 {
        assert(ac_order(67) == (5u8, 5u8) && ac_order(68) == (5u8, 6u8));
        assert(ac_code_spec(5u8, 5u8) == Some(HuffCode { code: 0b1111111110100000, len: 16 }));
        assert(ac_code_spec(5u8, 6u8) == Some(HuffCode { code: 0b1111111110100001, len: 16 }));
        assert(code_end(HuffCode { code: 0b1111111110100000, len: 16 }) == 65441);
        assert(code_start(HuffCode { code: 0b1111111110100001, len: 16 }) == 65441);
    } else if i == 68 {
        assert(ac_order(68) == (5u8, 6u8) && ac_order(69) == (5u8, 7u8));
        assert(ac_code_spec(5u8, 6u8) == Some(HuffCode { code: 0b1111111110100001, len: 16 }));
        assert(ac_code_spec(5u8, 7u8) == Some(HuffCode { code: 0b1111111110100010, len: 16 }));
        assert(code_end(HuffCode { code: 0b1111111110100001, len: 16 }) == 65442);
        assert(code_start(HuffCode { code: 0b1111111110100010, len: 16 }) == 65442);
    } else if i == 69 {
        assert(ac_order(69) == (5u8, 7u8) && ac_order(70) == (5u8, 8u8));
        assert(ac_code_spec(5u8, 7u8) == Some(HuffCode { code: 0b1111111110100010, len: 16 }));
        assert(ac_code_spec(5u8, 8u8) == Some(HuffCode { code: 0b1111111110100011, len: 16 }));
        assert(code_end(HuffCode { code: 0b1111111110100010, len: 16 }) == 65443);
        assert(code_start(HuffCode { code: 0b1111111110100011, len: 16 }) == 65443);
    } else if i == 70 {
        assert(ac_order(70) == (5u8, 8u8) && ac_order(71) == (5u8, 9u8));
        assert(ac_code_spec(5u8, 8u8) == Some(HuffCode { code: 0b1111111110100011, len: 16 }));
        assert(ac_code_spec(5u8, 9u8) == Some(HuffCode { code: 0b1111111110100100, len: 16 }));
        assert(code_end(HuffCode { code: 0b1111111110100011, len: 16 }) == 65444);
        assert(code_start(HuffCode { code: 0b1111111110100100, len: 16 }) == 65444);
    } else if i == 71 {
        assert(ac_order(71) == (5u8, 9u8) && ac_order(72) == (5u8, 10u8));
        assert(ac_code_spec(5u8, 9u8) == Some(HuffCode { code: 0b1111111110100100, len: 16 }));
        assert(ac_code_spec(5u8, 10u8) == Some(HuffCode { code: 0b1111111110100101, len: 16 }));
        assert(code_end(HuffCode { code: 0b1111111110100100, len: 16 }) == 65445);
        assert(code_start(HuffCode { code: 0b1111111110100101, len: 16 }) == 65445);
    } else if i == 72 {
        assert(ac_order(72) == (5u8, 10u8) && ac_order(73) == (6u8, 3u8));
        assert(ac_code_spec(5u8, 10u8) == Some(HuffCode { code: 0b1111111110100101, len: 16 }));
        assert(ac_code_spec(6u8, 3u8) == Some(HuffCode { code: 0b1111111110100110, len: 16 }));
        assert(code_end(HuffCode { code: 0b1111111110100101, len: 16 }) == 65446);
        assert(code_start(HuffCode { code: 0b1111111110100110, len: 16 }) == 65446);
    } else if i == 73 {
        assert(ac_order(73) == (6u8, 3u8) && ac_order(74) == (6u8, 4u8));
        assert(ac_code_spec(6u8, 3u8) == Some(HuffCode { code: 0b1111111110100110, len: 16 }));
        assert(ac_code_spec(6u8, 4u8) == Some(HuffCode { code: 0b1111111110100111, len: 16 }));
        assert(code_end(HuffCode { code: 0b1111111110100110, len: 16 }) == 65447);
        assert(code_start(HuffCode { code: 0b1111111110100111, len: 16 }) == 65447);
    } else if i == 74 {
        assert(ac_order(74) == (6u8, 4u8) && ac_order(75) == (6u8, 5u8));
        assert(ac_code_spec(6u8, 4u8) == Some(HuffCode { code: 0b1111111110100111, len: 16 }));
        assert(ac_code_spec(6u8, 5u8) == Some(HuffCode { code: 0b1111111110101000, len: 16 }));
        assert(code_end(HuffCode { code: 0b1111111110100111, len: 16 }) == 65448);
        assert(code_start(HuffCode { code: 0b1111111110101000, len: 16 }) == 65448);
    } else if i == 75 {
        assert(ac_order(75) == (6u8, 5u8) && ac_order(76) == (6u8, 6u8));
        assert(ac_code_spec(6u8, 5u8) == Some(HuffCode { code: 0b1111111110101000, len: 16 }));
        assert(ac_code_spec(6u8, 6u8) == Some(HuffCode { code: 0b1111111110101001, len: 16 }));
        assert(code_end(HuffCode { code: 0b1111111110101000, len: 16 }) == 65449);
        assert(code_start(HuffCode { code: 0b1111111110101001, len: 16 }) == 65449);
    } else if i == 76 {
        assert(ac_order(76) == (6u8, 6u8) && ac_order(77) == (6u8, 7u8));
        assert(ac_code_spec(6u8, 6u8) == Some(HuffCode { code: 0b1111111110101001, len: 16 }));
        assert(ac_code_spec(6u8, 7u8) == Some(HuffCode { code: 0b1111111110101010, len: 16 }));
        assert(code_end(HuffCode { code: 0b1111111110101001, len: 16 }) == 65450);
        assert(code_start(HuffCode { code: 0b1111111110101010, len: 16 }) == 65450);
    } else if i == 77 {
        assert(ac_order(77) == (6u8, 7u8) && ac_order(78) == (6u8, 8u8));
        assert(ac_code_spec(6u8, 7u8) == Some(HuffCode { code: 0b1111111110101010, len: 16 }));
        assert(ac_code_spec(6u8, 8u8) == Some(HuffCode { code: 0b1111111110101011, len: 16 }));
        assert(code_end(HuffCode { code: 0b1111111110101010, len: 16 }) == 65451);
        assert(code_start(HuffCode { code: 0b1111111110101011, len: 16 }) == 65451);
    } else if i == 78 {
        assert(ac_order(78) == (6u8, 8u8) && ac_order(79) == (6u8, 9u8));
        assert(ac_code_spec(6u8, 8u8) == Some(HuffCode { code: 0b1111111110101011, len: 16 }));
        assert(ac_code_spec(6u8, 9u8) == Some(HuffCode { code: 0b1111111110101100, len: 16 }));
        assert(code_end(HuffCode { code: 0b1111111110101011, len: 16 }) == 65452);
        assert(code_start(HuffCode { code: 0b1111111110101100, len: 16 }) == 65452);
    } else if i == 79 {
        assert(ac_order(79) == (6u8, 9u8) && ac_order(80) == (6u8, 10u8));
        assert(ac_code_spec(6u8, 9u8) == Some(HuffCode { code: 0b1111111110101100, len: 16 }));
        assert(ac_code_spec(6u8, 10u8) == Some(HuffCode { code: 0b1111111110101101, len: 16 }));
        assert(code_end(HuffCode { code: 0b1111111110101100, len: 16 }) == 65453);
        assert(code_start(HuffCode { code: 0b1111111110101101, len: 16 }) == 65453);
    } else if i == 80 {
        assert(ac_order(80) == (6u8, 10u8) && ac_order(81) == (7u8, 3u8));
        assert(ac_code_spec(6u8, 10u8) == Some(HuffCode { code: 0b1111111110101101, len: 16 }));
        assert(ac_code_spec(7u8, 3u8) == Some(HuffCode { code: 0b1111111110101110, len: 16 }));
        assert(code_end(HuffCode { code: 0b1111111110101101, len: 16 }) == 65454);
        assert(code_start(HuffCode { code: 0b1111111110101110, len: 16 }) == 65454);
    } else if i == 81 {
        assert(ac_order(81) == (7u8, 3u8) && ac_order(82) == (7u8, 4u8));
        assert(ac_code_spec(7u8, 3u8) == Some(HuffCode { code: 0b1111111110101110, len: 16 }));
        assert(ac_code_spec(7u8, 4u8) == Some(HuffCode { code: 0b1111111110101111, len: 16 }));
        assert(code_end(HuffCode { code: 0b1111111110101110, len: 16 }) == 65455);
        assert(code_start(HuffCode { code: 0b1111111110101111, len: 16 }) == 65455);
    } else if i == 82 {
        assert(ac_order(82) == (7u8, 4u8) && ac_order(83) == (7u8, 5u8));
        assert(ac_code_spec(7u8, 4u8) == Some(HuffCode { code: 0b1111111110101111, len: 16 }));
        assert(ac_code_spec(7u8, 5u8) == Some(HuffCode { code: 0b1111111110110000, len: 16 }));
        assert(code_end(HuffCode { code: 0b1111111110101111, len: 16 }) == 65456);
        assert(code_start(HuffCode { code: 0b1111111110110000, len: 16 }) == 65456);
    } else if i == 83 {
        assert(ac_order(83) == (7u8, 5u8) && ac_order(84) == (7u8, 6u8));
        assert(ac_code_spec(7u8, 5u8) == Some(HuffCode { code: 0b1111111110110000, len: 16 }));
        assert(ac_code_spec(7u8, 6u8) == Some(HuffCode { code: 0b1111111110110001, len: 16 }));
        assert(code_end(HuffCode { code: 0b1111111110110000, len: 16 }) == 65457);
        assert(code_start(HuffCode { code: 0b1111111110110001, len: 16 }) == 65457);
    } else if i == 84 {
        assert(ac_order(84) == (7u8, 6u8) && ac_order(85) == (7u8, 7u8));
        assert(ac_code_spec(7u8, 6u8) == Some(HuffCode { code: 0b1111111110110001, len: 16 }));
        assert(ac_code_spec(7u8, 7u8) == Some(HuffCode { code: 0b1111111110110010, len: 16 }));
        assert(code_end(HuffCode { code: 0b1111111110110001, len: 16 }) == 65458);
        assert(code_start(HuffCode { code: 0b1111111110110010, len: 16 }) == 65458);
    } else if i == 85 {
        assert(ac_order(85) == (7u8, 7u8) && ac_order(86) == (7u8, 8u8));
        assert(ac_code_spec(7u8, 7u8) == Some(HuffCode { code: 0b1111111110110010, len: 16 }));
        assert(ac_code_spec(7u8, 8u8) == Some(HuffCode { code: 0b1111111110110011, len: 16 }));
        assert(code_end(HuffCode { code: 0b1111111110110010, len: 16 }) == 65459);
        assert(code_start(HuffCode { code: 0b1111111110110011, len: 16 }) == 65459);
    } else if i == 86 {
        assert(ac_order(86) == (7u8, 8u8) && ac_order(87) == (7u8, 9u8));
        assert(ac_code_spec(7u8, 8u8) == Some(HuffCode { code: 0b1111111110110011, len: 16 }));
        assert(ac_code_spec(7u8, 9u8) == Some(HuffCode { code: 0b1111111110110100, len: 16 }));
        assert(code_end(HuffCode { code: 0b1111111110110011, len: 16 }) == 65460);
        assert(code_start(HuffCode { code: 0b1111111110110100, len: 16 }) == 65460);
    } else if i == 87 {
        assert(ac_order(87) == (7u8, 9u8) && ac_order(88) == (7u8, 10u8));
        assert(ac_code_spec(7u8, 9u8) == Some(HuffCode { code: 0b1111111110110100, len: 16 }));
        assert(ac_code_spec(7u8, 10u8) == Some(HuffCode { code: 0b1111111110110101, len: 16 }));
        assert(code_end(HuffCode { code: 0b1111111110110100, len: 16 }) == 65461);
        assert(code_start(HuffCode { code: 0b1111111110110101, len: 16 }) == 65461);
    } else if i == 88 {
        assert(ac_order(88) == (7u8, 10u8) && ac_order(89) == (8u8, 3u8));
        assert(ac_code_spec(7u8, 10u8) == Some(HuffCode { code: 0b1111111110110101, len: 16 }));
        assert(ac_code_spec(8u8, 3u8) == Some(HuffCode { code: 0b1111111110110110, len: 16 }));
        assert(code_end(HuffCode { code: 0b1111111110110101, len: 16 }) == 65462);
        assert(code_start(HuffCode { code: 0b1111111110110110, len: 16 }) == 65462);
    } else if i == 89 {
        assert(ac_order(89) == (8u8, 3u8) && ac_order(90) == (8u8, 4u8));
        assert(ac_code_spec(8u8, 3u8) == Some(HuffCode { code: 0b1111111110110110, len: 16 }));
        assert(ac_code_spec(8u8, 4u8) == Some(HuffCode { code: 0b1111111110110111, len: 16 }));
        assert(code_end(HuffCode { code: 0b1111111110110110, len: 16 }) == 65463);
        assert(code_start(HuffCode { code: 0b1111111110110111, len: 16 }) == 65463);
    } else if i == 90 {
        assert(ac_order(90) == (8u8, 4u8) && ac_order(91) == (8u8, 5u8));
        assert(ac_code_spec(8u8, 4u8) == Some(HuffCode { code: 0b1111111110110111, len: 16 }));
        assert(ac_code_spec(8u8, 5u8) == Some(HuffCode { code: 0b1111111110111000, len: 16 }));
        assert(code_end(HuffCode { code: 0b1111111110110111, len: 16 }) == 65464);
        assert(code_start(HuffCode { code: 0b1111111110111000, len: 16 }) == 65464);
    } else if i == 91 {
        assert(ac_order(91) == (8u8, 5u8) && ac_order(92) == (8u8, 6u8));
        assert(ac_code_spec(8u8, 5u8) == Some(HuffCode { code: 0b1111111110111000, len: 16 }));
        assert(ac_code_spec(8u8, 6u8) == Some(HuffCode { code: 0b1111111110111001, len: 16 }));
        assert(code_end(HuffCode { code: 0b1111111110111000, len: 16 }) == 65465);
        assert(code_start(HuffCode { code: 0b1111111110111001, len: 16 }) == 65465);
    } else if i == 92 {
        assert(ac_order(92) == (8u8, 6u8) && ac_order(93) == (8u8, 7u8));
        assert(ac_code_spec(8u8, 6u8) == Some(HuffCode { code: 0b1111111110111001, len: 16 }));
        assert(ac_code_spec(8u8, 7u8) == Some(HuffCode { code: 0b1111111110111010, len: 16 }));
        assert(code_end(HuffCode { code: 0b1111111110111001, len: 16 }) == 65466);
        assert(code_start(HuffCode { code: 0b1111111110111010, len: 16 }) == 65466);
    } else if i == 93 {
        assert(ac_order(93) == (8u8, 7u8) && ac_order(94) == (8u8, 8u8));
        assert(ac_code_spec(8u8, 7u8) == Some(HuffCode { code: 0b1111111110111010, len: 16 }));
        assert(ac_code_spec(8u8, 8u8) == Some(HuffCode { code: 0b1111111110111011, len: 16 }));
        assert(code_end(HuffCode { code: 0b1111111110111010, len: 16 }) == 65467);
        assert(code_start(HuffCode { code: 0b1111111110111011, len: 16 }) == 65467);
    } else if i == 94 {
        assert(ac_order(94) == (8u8, 8u8) && ac_order(95) == (8u8, 9u8));
        assert(ac_code_spec(8u8, 8u8) == Some(HuffCode { code: 0b1111111110111011, len: 16 }));
        assert(ac_code_spec(8u8, 9u8) == Some(HuffCode { code: 0b1111111110111100, len: 16 }));
        assert(code_end(HuffCode { code: 0b1111111110111011, len: 16 }) == 65468);
        assert(code_start(HuffCode { code: 0b1111111110111100, len: 16 }) == 65468);
    } else if i == 95 {
        assert(ac_order(95) == (8u8, 9u8) && ac_order(96) == (8u8, 10u8));
        assert(ac_code_spec(8u8, 9u8) == Some(HuffCode { code: 0b1111111110111100, len: 16 }));
        assert(ac_code_spec(8u8, 10u8) == Some(HuffCode { code: 0b1111111110111101, len: 16 }));
        assert(code_end(HuffCode { code: 0b1111111110111100, len: 16 }) == 65469);
        assert(code_start(HuffCode { code: 0b1111111110111101, len: 16 }) == 65469);
    } else if i == 96 {
        assert(ac_order(96) == (8u8, 10u8) && ac_order(97) == (9u8, 2u8));
        assert(ac_code_spec(8u8, 10u8) == Some(HuffCode { code: 0b1111111110111101, len: 16 }));
        assert(ac_code_spec(9u8, 2u8) == Some(HuffCode { code: 0b1111111110111110, len: 16 }));
        assert(code_end(HuffCode { code: 0b1111111110111101, len: 16 }) == 65470);
        assert(code_start(HuffCode { code: 0b1111111110111110, len: 16 }) == 65470);
    } else if i == 97 {
        assert(ac_order(97) == (9u8, 2u8) && ac_order(98) == (9u8, 3u8));
        assert(ac_code_spec(9u8, 2u8) == Some(HuffCode { code: 0b1111111110111110, len: 16 }));
        assert(ac_code_spec(9u8, 3u8) == Some(HuffCode { code: 0b1111111110111111, len: 16 }));
        assert(code_end(HuffCode { code: 0b1111111110111110, len: 16 }) == 65471);
        assert(code_start(HuffCode { code: 0b1111111110111111, len: 16 }) == 65471);
    } else if i == 98 {
        assert(ac_order(98) == (9u8, 3u8) && ac_order(99) == (9u8, 4u8));
        assert(ac_code_spec(9u8, 3u8) == Some(HuffCode { code: 0b1111111110111111, len: 16 }));
        assert(ac_code_spec(9u8, 4u8) == Some(HuffCode { code: 0b1111111111000000, len: 16 }));
        assert(code_end(HuffCode { code: 0b1111111110111111, len: 16 }) == 65472);
        assert(code_start(HuffCode { code: 0b1111111111000000, len: 16 }) == 65472);
    } else if i == 99 {
        assert(ac_order(99) == (9u8, 4u8) && ac_order(100) == (9u8, 5u8));
        assert(ac_code_spec(9u8, 4u8) == Some(HuffCode { code: 0b1111111111000000, len: 16 }));
        assert(ac_code_spec(9u8, 5u8) == Some(HuffCode { code: 0b1111111111000001, len: 16 }));
        assert(code_end(HuffCode { code: 0b1111111111000000, len: 16 }) == 65473);
        assert(code_start(HuffCode { code: 0b1111111111000001, len: 16 }) == 65473);
    } else if i == 100 {
        assert(ac_order(100) == (9u8, 5u8) && ac_order(101) == (9u8, 6u8));
        assert(ac_code_spec(9u8, 5u8) == Some(HuffCode { code: 0b1111111111000001, len: 16 }));
        assert(ac_code_spec(9u8, 6u8) == Some(HuffCode { code: 0b1111111111000010, len: 16 }));
        assert(code_end(HuffCode { code: 0b1111111111000001, len: 16 }) == 65474);
        assert(code_start(HuffCode { code: 0b1111111111000010, len: 16 }) == 65474);
    } else if i == 101 {
        assert(ac_order(101) == (9u8, 6u8) && ac_order(102) == (9u8, 7u8));
        assert(ac_code_spec(9u8, 6u8) == Some(HuffCode { code: 0b1111111111000010, len: 16 }));
        assert(ac_code_spec(9u8, 7u8) == Some(HuffCode { code: 0b1111111111000011, len: 16 }));
        assert(code_end(HuffCode { code: 0b1111111111000010, len: 16 }) == 65475);
        assert(code_start(HuffCode { code: 0b1111111111000011, len: 16 }) == 65475);
    } else if i == 102 {
        assert(ac_order(102) == (9u8, 7u8) && ac_order(103) == (9u8, 8u8));
        assert(ac_code_spec(9u8, 7u8) == Some(HuffCode { code: 0b1111111111000011, len: 16 }));
        assert(ac_code_spec(9u8, 8u8) == Some(HuffCode { code: 0b1111111111000100, len: 16 }));
        assert(code_end(HuffCode { code: 0b1111111111000011, len: 16 }) == 65476);
        assert(code_start(HuffCode { code: 0b1111111111000100, len: 16 }) == 65476);
    } else if i == 103 {
        assert(ac_order(103) == (9u8, 8u8) && ac_order(104) == (9u8, 9u8));
        assert(ac_code_spec(9u8, 8u8) == Some(HuffCode { code: 0b1111111111000100, len: 16 }));
        assert(ac_code_spec(9u8, 9u8) == Some(HuffCode { code: 0b1111111111000101, len: 16 }));
        assert(code_end(HuffCode { code: 0b1111111111000100, len: 16 }) == 65477);
        assert(code_start(HuffCode { code: 0b1111111111000101, len: 16 }) == 65477);
    } else if i == 104 {
        assert(ac_order(104) == (9u8, 9u8) && ac_order(105) == (9u8, 10u8));
        assert(ac_code_spec(9u8, 9u8) == Some(HuffCode { code: 0b1111111111000101, len: 16 }));
        assert(ac_code_spec(9u8, 10u8) == Some(HuffCode { code: 0b1111111111000110, len: 16 }));
        assert(code_end(HuffCode { code: 0b1111111111000101, len: 16 }) == 65478);
        assert(code_start(HuffCode { code: 0b1111111111000110, len: 16 }) == 65478);
    } else if i == 105 {
        assert(ac_order(105) == (9u8, 10u8) && ac_order(106) == (10u8, 2u8));
        assert(ac_code_spec(9u8, 10u8) == Some(HuffCode { code: 0b1111111111000110, len: 16 }));
        assert(ac_code_spec(10u8, 2u8) == Some(HuffCode { code: 0b1111111111000111, len: 16 }));
        assert(code_end(HuffCode { code: 0b1111111111000110, len: 16 }) == 65479);
        assert(code_start(HuffCode { code: 0b1111111111000111, len: 16 }) == 65479);
    } else if i == 106 {
        assert(ac_order(106) == (10u8, 2u8) && ac_order(107) == (10u8, 3u8));
        assert(ac_code_spec(10u8, 2u8) == Some(HuffCode { code: 0b1111111111000111, len: 16 }));
        assert(ac_code_spec(10u8, 3u8) == Some(HuffCode { code: 0b1111111111001000, len: 16 }));
        assert(code_end(HuffCode { code: 0b1111111111000111, len: 16 }) == 65480);
        assert(code_start(HuffCode { code: 0b1111111111001000, len: 16 }) == 65480);
    } else if i == 107 {
        assert(ac_order(107) == (10u8, 3u8) && ac_order(108) == (10u8, 4u8));
        assert(ac_code_spec(10u8, 3u8) == Some(HuffCode { code: 0b1111111111001000, len: 16 }));
        assert(ac_code_spec(10u8, 4u8) == Some(HuffCode { code: 0b1111111111001001, len: 16 }));
        assert(code_end(HuffCode { code: 0b1111111111001000, len: 16 }) == 65481);
        assert(code_start(HuffCode { code: 0b1111111111001001, len: 16 }) == 65481);
    } else if i == 108 {
        assert(ac_order(108) == (10u8, 4u8) && ac_order(109) == (10u8, 5u8));
        assert(ac_code_spec(10u8, 4u8) == Some(HuffCode { code: 0b1111111111001001, len: 16 }));
        assert(ac_code_spec(10u8, 5u8) == Some(HuffCode { code: 0b1111111111001010, len: 16 }));
        assert(code_end(HuffCode { code: 0b1111111111001001, len: 16 }) == 65482);
        assert(code_start(HuffCode { code: 0b1111111111001010, len: 16 }) == 65482);
    } else if i == 109 {
        assert(ac_order(109) == (10u8, 5u8) && ac_order(110) == (10u8, 6u8));
        assert(ac_code_spec(10u8, 5u8) == Some(HuffCode { code: 0b1111111111001010, len: 16 }));
        assert(ac_code_spec(10u8, 6u8) == Some(HuffCode { code: 0b1111111111001011, len: 16 }));
        assert(code_end(HuffCode { code: 0b1111111111001010, len: 16 }) == 65483);
        assert(code_start(HuffCode { code: 0b1111111111001011, len: 16 }) == 65483);
    } else if i == 110 {
        assert(ac_order(110) == (10u8, 6u8) && ac_order(111) == (10u8, 7u8));
        assert(ac_code_spec(10u8, 6u8) == Some(HuffCode { code: 0b1111111111001011, len: 16 }));
        assert(ac_code_spec(10u8, 7u8) == Some(HuffCode { code: 0b1111111111001100, len: 16 }));
        assert(code_end(HuffCode { code: 0b1111111111001011, len: 16 }) == 65484);
        assert(code_start(HuffCode { code: 0b1111111111001100, len: 16 }) == 65484);
    } else if i == 111 {
        assert(ac_order(111) == (10u8, 7u8) && ac_order(112) == (10u8, 8u8));
        assert(ac_code_spec(10u8, 7u8) == Some(HuffCode { code: 0b1111111111001100, len: 16 }));
        assert(ac_code_spec(10u8, 8u8) == Some(HuffCode { code: 0b1111111111001101, len: 16 }));
        assert(code_end(HuffCode { code: 0b1111111111001100, len: 16 }) == 65485);
        assert(code_start(HuffCode { code: 0b1111111111001101, len: 16 }) == 65485);
    } else if i == 112 {
        assert(ac_order(112) == (10u8, 8u8) && ac_order(113) == (10u8, 9u8));
        assert(ac_code_spec(10u8, 8u8) == Some(HuffCode { code: 0b1111111111001101, len: 16 }));
        assert(ac_code_spec(10u8, 9u8) == Some(HuffCode { code: 0b1111111111001110, len: 16 }));
        assert(code_end(HuffCode { code: 0b1111111111001101, len: 16 }) == 65486);
        assert(code_start(HuffCode { code: 0b1111111111001110, len: 16 }) == 65486);
    } else if i == 113 {
        assert(ac_order(113) == (10u8, 9u8) && ac_order(114) == (10u8, 10u8));
        assert(ac_code_spec(10u8, 9u8) == Some(HuffCode { code: 0b1111111111001110, len: 16 }));
        assert(ac_code_spec(10u8, 10u8) == Some(HuffCode { code: 0b1111111111001111, len: 16 }));
        assert(code_end(HuffCode { code: 0b1111111111001110, len: 16 }) == 65487);
        assert(code_start(HuffCode { code: 0b1111111111001111, len: 16 }) == 65487);
    } else if i == 114 {
        assert(ac_order(114) == (10u8, 10u8) && ac_order(115) == (11u8, 2u8));
        assert(ac_code_spec(10u8, 10u8) == Some(HuffCode { code: 0b1111111111001111, len: 16 }));
        assert(ac_code_spec(11u8, 2u8) == Some(HuffCode { code: 0b1111111111010000, len: 16 }));
        assert(code_end(HuffCode { code: 0b1111111111001111, len: 16 }) == 65488);
        assert(code_start(HuffCode { code: 0b1111111111010000, len: 16 }) == 65488);
    } else if i == 115 {
        assert(ac_order(115) == (11u8, 2u8) && ac_order(116) == (11u8, 3u8));
        assert(ac_code_spec(11u8, 2u8) == Some(HuffCode { code: 0b1111111111010000, len: 16 }));
        assert(ac_code_spec(11u8, 3u8) == Some(HuffCode { code: 0b1111111111010001, len: 16 }));
        assert(code_end(HuffCode { code: 0b1111111111010000, len: 16 }) == 65489);
        assert(code_start(HuffCode { code: 0b1111111111010001, len: 16 }) == 65489);
    } else if i == 116 {
        assert(ac_order(116) == (11u8, 3u8) && ac_order(117) == (11u8, 4u8));
        assert(ac_code_spec(11u8, 3u8) == Some(HuffCode { code: 0b1111111111010001, len: 16 }));
        assert(ac_code_spec(11u8, 4u8) == Some(HuffCode { code: 0b1111111111010010, len: 16 }));
        assert(code_end(HuffCode { code: 0b1111111111010001, len: 16 }) == 65490);
        assert(code_start(HuffCode { code: 0b1111111111010010, len: 16 }) == 65490);
    } else if i == 117 {
        assert(ac_order(117) == (11u8, 4u8) && ac_order(118) == (11u8, 5u8));
        assert(ac_code_spec(11u8, 4u8) == Some(HuffCode { code: 0b1111111111010010, len: 16 }));
        assert(ac_code_spec(11u8, 5u8) == Some(HuffCode { code: 0b1111111111010011, len: 16 }));
        assert(code_end(HuffCode { code: 0b1111111111010010, len: 16 }) == 65491);
        assert(code_start(HuffCode { code: 0b1111111111010011, len: 16 }) == 65491);
    } else if i == 118 {
        assert(ac_order(118) == (11u8, 5u8) && ac_order(119) == (11u8, 6u8));
        assert(ac_code_spec(11u8, 5u8) == Some(HuffCode { code: 0b1111111111010011, len: 16 }));
        assert(ac_code_spec(11u8, 6u8) == Some(HuffCode { code: 0b1111111111010100, len: 16 }));
        assert(code_end(HuffCode { code: 0b1111111111010011, len: 16 }) == 65492);
        assert(code_start(HuffCode { code: 0b1111111111010100, len: 16 }) == 65492);
    } else if i == 119 {
        assert(ac_order(119) == (11u8, 6u8) && ac_order(120) == (11u8, 7u8));
        assert(ac_code_spec(11u8, 6u8) == Some(HuffCode { code: 0b1111111111010100, len: 16 }));
        assert(ac_code_spec(11u8, 7u8) == Some(HuffCode { code: 0b1111111111010101, len: 16 }));
        assert(code_end(HuffCode { code: 0b1111111111010100, len: 16 }) == 65493);
        assert(code_start(HuffCode { code: 0b1111111111010101, len: 16 }) == 65493);
    } else if i == 120 {
        assert(ac_order(120) == (11u8, 7u8) && ac_order(121) == (11u8, 8u8));
        assert(ac_code_spec(11u8, 7u8) == Some(HuffCode { code: 0b1111111111010101, len: 16 }));
        assert(ac_code_spec(11u8, 8u8) == Some(HuffCode { code: 0b1111111111010110, len: 16 }));
        assert(code_end(HuffCode { code: 0b1111111111010101, len: 16 }) == 65494);
        assert(code_start(HuffCode { code: 0b1111111111010110, len: 16 }) == 65494);
    } else if i == 121 {
        assert(ac_order(121) == (11u8, 8u8) && ac_order(122) == (11u8, 9u8));
        assert(ac_code_spec(11u8, 8u8) == Some(HuffCode { code: 0b1111111111010110, len: 16 }));
        assert(ac_code_spec(11u8, 9u8) == Some(HuffCode { code: 0b1111111111010111, len: 16 }));
        assert(code_end(HuffCode { code: 0b1111111111010110, len: 16 }) == 65495);
        assert(code_start(HuffCode { code: 0b1111111111010111, len: 16 }) == 65495);
    } else if i == 122 {
        assert(ac_order(122) == (11u8, 9u8) && ac_order(123) == (11u8, 10u8));
        assert(ac_code_spec(11u8, 9u8) == Some(HuffCode { code: 0b1111111111010111, len: 16 }));
        assert(ac_code_spec(11u8, 10u8) == Some(HuffCode { code: 0b1111111111011000, len: 16 }));
        assert(code_end(HuffCode { code: 0b1111111111010111, len: 16 }) == 65496);
        assert(code_start(HuffCode { code: 0b1111111111011000, len: 16 }) == 65496);
    } else if i == 123 {
        assert(ac_order(123) == (11u8, 10u8) && ac_order(124) == (12u8, 2u8));
        assert(ac_code_spec(11u8, 10u8) == Some(HuffCode { code: 0b1111111111011000, len: 16 }));
        assert(ac_code_spec(12u8, 2u8) == Some(HuffCode { code: 0b1111111111011001, len: 16 }));
        assert(code_end(HuffCode { code: 0b1111111111011000, len: 16 }) == 65497);
        assert(code_start(HuffCode { code: 0b1111111111011001, len: 16 }) == 65497);
    } else if i == 124 {
        assert(ac_order(124) == (12u8, 2u8) && ac_order(125) == (12u8, 3u8));
        assert(ac_code_spec(12u8, 2u8) == Some(HuffCode { code: 0b1111111111011001, len: 16 }));
        assert(ac_code_spec(12u8, 3u8) == Some(HuffCode { code: 0b1111111111011010, len: 16 }));
        assert(code_end(HuffCode { code: 0b1111111111011001, len: 16 }) == 65498);
        assert(code_start(HuffCode { code: 0b1111111111011010, len: 16 }) == 65498);
    } else if i == 125 {
        assert(ac_order(125) == (12u8, 3u8) && ac_order(126) == (12u8, 4u8));
        assert(ac_code_spec(12u8, 3u8) == Some(HuffCode { code: 0b1111111111011010, len: 16 }));
        assert(ac_code_spec(12u8, 4u8) == Some(HuffCode { code: 0b1111111111011011, len: 16 }));
        assert(code_end(HuffCode { code: 0b1111111111011010, len: 16 }) == 65499);
        assert(code_start(HuffCode { code: 0b1111111111011011, len: 16 }) == 65499);
    } else if i == 126 {
        assert(ac_order(126) == (12u8, 4u8) && ac_order(127) == (12u8, 5u8));
        assert(ac_code_spec(12u8, 4u8) == Some(HuffCode { code: 0b1111111111011011, len: 16 }));
        assert(ac_code_spec(12u8, 5u8) == Some(HuffCode { code: 0b1111111111011100, len: 16 }));
        assert(code_end(HuffCode { code: 0b1111111111011011, len: 16 }) == 65500);
        assert(code_start(HuffCode { code: 0b1111111111011100, len: 16 }) == 65500);
    } else if i == 127 {
        assert(ac_order(127) == (12u8, 5u8) && ac_order(128) == (12u8, 6u8));
        assert(ac_code_spec(12u8, 5u8) == Some(HuffCode { code: 0b1111111111011100, len: 16 }));
        assert(ac_code_spec(12u8, 6u8) == Some(HuffCode { code: 0b1111111111011101, len: 16 }));
        assert(code_end(HuffCode { code: 0b1111111111011100, len: 16 }) == 65501);
        assert(code_start(HuffCode { code: 0b1111111111011101, len: 16 }) == 65501);
    } else if i == 128 {
        assert(ac_order(128) == (12u8, 6u8) && ac_order(129) == (12u8, 7u8));
        assert(ac_code_spec(12u8, 6u8) == Some(HuffCode { code: 0b1111111111011101, len: 16 }));
        assert(ac_code_spec(12u8, 7u8) == Some(HuffCode { code: 0b1111111111011110, len: 16 }));
        assert(code_end(HuffCode { code: 0b1111111111011101, len: 16 }) == 65502);
        assert(code_start(HuffCode { code: 0b1111111111011110, len: 16 }) == 65502);
    } else if i == 129 {
        assert(ac_order(129) == (12u8, 7u8) && ac_order(130) == (12u8, 8u8));
        assert(ac_code_spec(12u8, 7u8) == Some(HuffCode { code: 0b1111111111011110, len: 16 }));
        assert(ac_code_spec(12u8, 8u8) == Some(HuffCode { code: 0b1111111111011111, len: 16 }));
        assert(code_end(HuffCode { code: 0b1111111111011110, len: 16 }) == 65503);
        assert(code_start(HuffCode { code: 0b1111111111011111, len: 16 }) == 65503);
    } else if i == 130 {
        assert(ac_order(130) == (12u8, 8u8) && ac_order(131) == (12u8, 9u8));
        assert(ac_code_spec(12u8, 8u8) == Some(HuffCode { code: 0b1111111111011111, len: 16 }));
        assert(ac_code_spec(12u8, 9u8) == Some(HuffCode { code: 0b1111111111100000, len: 16 }));
        assert(code_end(HuffCode { code: 0b1111111111011111, len: 16 }) == 65504);
        assert(code_start(HuffCode { code: 0b1111111111100000, len: 16 }) == 65504);
    } else if i == 131 {
        assert(ac_order(131) == (12u8, 9u8) && ac_order(132) == (12u8, 10u8));
        assert(ac_code_spec(12u8, 9u8) == Some(HuffCode { code: 0b1111111111100000, len: 16 }));
        assert(ac_code_spec(12u8, 10u8) == Some(HuffCode { code: 0b1111111111100001, len: 16 }));
        assert(code_end(HuffCode { code: 0b1111111111100000, len: 16 }) == 65505);
        assert(code_start(HuffCode { code: 0b1111111111100001, len: 16 }) == 65505);
    } else if i == 132 {
        assert(ac_order(132) == (12u8, 10u8) && ac_order(133) == (13u8, 2u8));
        assert(ac_code_spec(12u8, 10u8) == Some(HuffCode { code: 0b1111111111100001, len: 16 }));
        assert(ac_code_spec(13u8, 2u8) == Some(HuffCode { code: 0b1111111111100010, len: 16 }));
        assert(code_end(HuffCode { code: 0b1111111111100001, len: 16 }) == 65506);
        assert(code_start(HuffCode { code: 0b1111111111100010, len: 16 }) == 65506);
    } else if i == 133 {
        assert(ac_order(133) == (13u8, 2u8) && ac_order(134) == (13u8, 3u8));
        assert(ac_code_spec(13u8, 2u8) == Some(HuffCode { code: 0b1111111111100010, len: 16 }));
        assert(ac_code_spec(13u8, 3u8) == Some(HuffCode { code: 0b1111111111100011, len: 16 }));
        assert(code_end(HuffCode { code: 0b1111111111100010, len: 16 }) == 65507);
        assert(code_start(HuffCode { code: 0b1111111111100011, len: 16 }) == 65507);
    } else if i == 134 {
        assert(ac_order(134) == (13u8, 3u8) && ac_order(135) == (13u8, 4u8));
        assert(ac_code_spec(13u8, 3u8) == Some(HuffCode { code: 0b1111111111100011, len: 16 }));
        assert(ac_code_spec(13u8, 4u8) == Some(HuffCode { code: 0b1111111111100100, len: 16 }));
        assert(code_end(HuffCode { code: 0b1111111111100011, len: 16 }) == 65508);
        assert(code_start(HuffCode { code: 0b1111111111100100, len: 16 }) == 65508);
    } else if i == 135 {
        assert(ac_order(135) == (13u8, 4u8) && ac_order(136) == (13u8, 5u8));
        assert(ac_code_spec(13u8, 4u8) == Some(HuffCode { code: 0b1111111111100100, len: 16 }));
        assert(ac_code_spec(13u8, 5u8) == Some(HuffCode { code: 0b1111111111100101, len: 16 }));
        assert(code_end(HuffCode { code: 0b1111111111100100, len: 16 }) == 65509);
        assert(code_start(HuffCode { code: 0b1111111111100101, len: 16 }) == 65509);
    } else if i == 136 {
        assert(ac_order(136) == (13u8, 5u8) && ac_order(137) == (13u8, 6u8));
        assert(ac_code_spec(13u8, 5u8) == Some(HuffCode { code: 0b1111111111100101, len: 16 }));
        assert(ac_code_spec(13u8, 6u8) == Some(HuffCode { code: 0b1111111111100110, len: 16 }));
        assert(code_end(HuffCode { code: 0b1111111111100101, len: 16 }) == 65510);
        assert(code_start(HuffCode { code: 0b1111111111100110, len: 16 }) == 65510);
    } else if i == 137 {
        assert(ac_order(137) == (13u8, 6u8) && ac_order(138) == (13u8, 7u8));
        assert(ac_code_spec(13u8, 6u8) == Some(HuffCode { code: 0b1111111111100110, len: 16 }));
        assert(ac_code_spec(13u8, 7u8) == Some(HuffCode { code: 0b1111111111100111, len: 16 }));
        assert(code_end(HuffCode { code: 0b1111111111100110, len: 16 }) == 65511);
        assert(code_start(HuffCode { code: 0b1111111111100111, len: 16 }) == 65511);
    } else if i == 138 {
        assert(ac_order(138) == (13u8, 7u8) && ac_order(139) == (13u8, 8u8));
        assert(ac_code_spec(13u8, 7u8) == Some(HuffCode { code: 0b1111111111100111, len: 16 }));
        assert(ac_code_spec(13u8, 8u8) == Some(HuffCode { code: 0b1111111111101000, len: 16 }));
        assert(code_end(HuffCode { code: 0b1111111111100111, len: 16 }) == 65512);
        assert(code_start(HuffCode { code: 0b1111111111101000, len: 16 }) == 65512);
    } else if i == 139 {
        assert(ac_order(139) == (13u8, 8u8) && ac_order(140) == (13u8, 9u8));
        assert(ac_code_spec(13u8, 8u8) == Some(HuffCode { code: 0b1111111111101000, len: 16 }));
        assert(ac_code_spec(13u8, 9u8) == Some(HuffCode { code: 0b1111111111101001, len: 16 }));
        assert(code_end(HuffCode { code: 0b1111111111101000, len: 16 }) == 65513);
        assert(code_start(HuffCode { code: 0b1111111111101001, len: 16 }) == 65513);
    } else if i == 140 {
        assert(ac_order(140) == (13u8, 9u8) && ac_order(141) == (13u8, 10u8));
        assert(ac_code_spec(13u8, 9u8) == Some(HuffCode { code: 0b1111111111101001, len: 16 }));
        assert(ac_code_spec(13u8, 10u8) == Some(HuffCode { code: 0b1111111111101010, len: 16 }));
        assert(code_end(HuffCode { code: 0b1111111111101001, len: 16 }) == 65514);
        assert(code_start(HuffCode { code: 0b1111111111101010, len: 16 }) == 65514);
    } else if i == 141 {
        assert(ac_order(141) == (13u8, 10u8) && ac_order(142) == (14u8, 1u8));
        assert(ac_code_spec(13u8, 10u8) == Some(HuffCode { code: 0b1111111111101010, len: 16 }));
        assert(ac_code_spec(14u8, 1u8) == Some(HuffCode { code: 0b1111111111101011, len: 16 }));
        assert(code_end(HuffCode { code: 0b1111111111101010, len: 16 }) == 65515);
        assert(code_start(HuffCode { code: 0b1111111111101011, len: 16 }) == 65515);
    } else if i == 142 {
        assert(ac_order(142) == (14u8, 1u8) && ac_order(143) == (14u8, 2u8));
        assert(ac_code_spec(14u8, 1u8) == Some(HuffCode { code: 0b1111111111101011, len: 16 }));
        assert(ac_code_spec(14u8, 2u8) == Some(HuffCode { code: 0b1111111111101100, len: 16 }));
        assert(code_end(HuffCode { code: 0b1111111111101011, len: 16 }) == 65516);
        assert(code_start(HuffCode { code: 0b1111111111101100, len: 16 }) == 65516);
    } else if i == 143 {
        assert(ac_order(143) == (14u8, 2u8) && ac_order(144) == (14u8, 3u8));
        assert(ac_code_spec(14u8, 2u8) == Some(HuffCode { code: 0b1111111111101100, len: 16 }));
        assert(ac_code_spec(14u8, 3u8) == Some(HuffCode { code: 0b1111111111101101, len: 16 }));
        assert(code_end(HuffCode { code: 0b1111111111101100, len: 16 }) == 65517);
        assert(code_start(HuffCode { code: 0b1111111111101101, len: 16 }) == 65517);
    } else if i == 144 {
        assert(ac_order(144) == (14u8, 3u8) && ac_order(145) == (14u8, 4u8));
        assert(ac_code_spec(14u8, 3u8) == Some(HuffCode { code: 0b1111111111101101, len: 16 }));
        assert(ac_code_spec(14u8, 4u8) == Some(HuffCode { code: 0b1111111111101110, len: 16 }));
        assert(code_end(HuffCode { code: 0b1111111111101101, len: 16 }) == 65518);
        assert(code_start(HuffCode { code: 0b1111111111101110, len: 16 }) == 65518);
    } else if i == 145 {
        assert(ac_order(145) == (14u8, 4u8) && ac_order(146) == (14u8, 5u8));
        assert(ac_code_spec(14u8, 4u8) == Some(HuffCode { code: 0b1111111111101110, len: 16 }));
        assert(ac_code_spec(14u8, 5u8) == Some(HuffCode { code: 0b1111111111101111, len: 16 }));
        assert(code_end(HuffCode { code: 0b1111111111101110, len: 16 }) == 65519);
        assert(code_start(HuffCode { code: 0b1111111111101111, len: 16 }) == 65519);
    } else if i == 146 {
        assert(ac_order(146) == (14u8, 5u8) && ac_order(147) == (14u8, 6u8));
        assert(ac_code_spec(14u8, 5u8) == Some(HuffCode { code: 0b1111111111101111, len: 16 }));
        assert(ac_code_spec(14u8, 6u8) == Some(HuffCode { code: 0b1111111111110000, len: 16 }));
        assert(code_end(HuffCode { code: 0b1111111111101111, len: 16 }) == 65520);
        assert(code_start(HuffCode { code: 0b1111111111110000, len: 16 }) == 65520);
    } else if i == 147 {
        assert(ac_order(147) == (14u8, 6u8) && ac_order(148) == (14u8, 7u8));
        assert(ac_code_spec(14u8, 6u8) == Some(HuffCode { code: 0b1111111111110000, len: 16 }));
        assert(ac_code_spec(14u8, 7u8) == Some(HuffCode { code: 0b1111111111110001, len: 16 }));
        assert(code_end(HuffCode { code: 0b1111111111110000, len: 16 }) == 65521);
        assert(code_start(HuffCode { code: 0b1111111111110001, len: 16 }) == 65521);
    } else if i == 148 {
        assert(ac_order(148) == (14u8, 7u8) && ac_order(149) == (14u8, 8u8));
        assert(ac_code_spec(14u8, 7u8) == Some(HuffCode { code: 0b1111111111110001, len: 16 }));
        assert(ac_code_spec(14u8, 8u8) == Some(HuffCode { code: 0b1111111111110010, len: 16 }));
        assert(code_end(HuffCode { code: 0b1111111111110001, len: 16 }) == 65522);
        assert(code_start(HuffCode { code: 0b1111111111110010, len: 16 }) == 65522);
    } else if i == 149 {
        assert(ac_order(149) == (14u8, 8u8) && ac_order(150) == (14u8, 9u8));
        assert(ac_code_spec(14u8, 8u8) == Some(HuffCode { code: 0b1111111111110010, len: 16 }));
        assert(ac_code_spec(14u8, 9u8) == Some(HuffCode { code: 0b1111111111110011, len: 16 }));
        assert(code_end(HuffCode { code: 0b1111111111110010, len: 16 }) == 65523);
        assert(code_start(HuffCode { code: 0b1111111111110011, len: 16 }) == 65523);
    } else if i == 150 {
        assert(ac_order(150) == (14u8, 9u8) && ac_order(151) == (14u8, 10u8));
        assert(ac_code_spec(14u8, 9u8) == Some(HuffCode { code: 0b1111111111110011, len: 16 }));
        assert(ac_code_spec(14u8, 10u8) == Some(HuffCode { code: 0b1111111111110100, len: 16 }));
        assert(code_end(HuffCode { code: 0b1111111111110011, len: 16 }) == 65524);
        assert(code_start(HuffCode { code: 0b1111111111110100, len: 16 }) == 65524);
    } else if i == 151 {
        assert(ac_order(151) == (14u8, 10u8) && ac_order(152) == (15u8, 1u8));
        assert(ac_code_spec(14u8, 10u8) == Some(HuffCode { code: 0b1111111111110100, len: 16 }));
        assert(ac_code_spec(15u8, 1u8) == Some(HuffCode { code: 0b1111111111110101, len: 16 }));
        assert(code_end(HuffCode { code: 0b1111111111110100, len: 16 }) == 65525);
        assert(code_start(HuffCode { code: 0b1111111111110101, len: 16 }) == 65525);
    } else if i == 152 {
        assert(ac_order(152) == (15u8, 1u8) && ac_order(153) == (15u8, 2u8));
        assert(ac_code_spec(15u8, 1u8) == Some(HuffCode { code: 0b1111111111110101, len: 16 }));
        assert(ac_code_spec(15u8, 2u8) == Some(HuffCode { code: 0b1111111111110110, len: 16 }));
        assert(code_end(HuffCode { code: 0b1111111111110101, len: 16 }) == 65526);
        assert(code_start(HuffCode { code: 0b1111111111110110, len: 16 }) == 65526);
    } else if i == 153 {
        assert(ac_order(153) == (15u8, 2u8) && ac_order(154) == (15u8, 3u8));
        assert(ac_code_spec(15u8, 2u8) == Some(HuffCode { code: 0b1111111111110110, len: 16 }));
        assert(ac_code_spec(15u8, 3u8) == Some(HuffCode { code: 0b1111111111110111, len: 16 }));
        assert(code_end(HuffCode { code: 0b1111111111110110, len: 16 }) == 65527);
        assert(code_start(HuffCode { code: 0b1111111111110111, len: 16 }) == 65527);
    } else if i == 154 {
        assert(ac_order(154) == (15u8, 3u8) && ac_order(155) == (15u8, 4u8));
        assert(ac_code_spec(15u8, 3u8) == Some(HuffCode { code: 0b1111111111110111, len: 16 }));
        assert(ac_code_spec(15u8, 4u8) == Some(HuffCode { code: 0b1111111111111000, len: 16 }));
        assert(code_end(HuffCode { code: 0b1111111111110111, len: 16 }) == 65528);
        assert(code_start(HuffCode { code: 0b1111111111111000, len: 16 }) == 65528);
    } else if i == 155 {
        assert(ac_order(155) == (15u8, 4u8) && ac_order(156) == (15u8, 5u8));
        assert(ac_code_spec(15u8, 4u8) == Some(HuffCode { code: 0b1111111111111000, len: 16 }));
        assert(ac_code_spec(15u8, 5u8) == Some(HuffCode { code: 0b1111111111111001, len: 16 }));
        assert(code_end(HuffCode { code: 0b1111111111111000, len: 16 }) == 65529);
        assert(code_start(HuffCode { code: 0b1111111111111001, len: 16 }) == 65529);
    } else if i == 156 {
        assert(ac_order(156) == (15u8, 5u8) && ac_order(157) == (15u8, 6u8));
        assert(ac_code_spec(15u8, 5u8) == Some(HuffCode { code: 0b1111111111111001, len: 16 }));
        assert(ac_code_spec(15u8, 6u8) == Some(HuffCode { code: 0b1111111111111010, len: 16 }));
        assert(code_end(HuffCode { code: 0b1111111111111001, len: 16 }) == 65530);
        assert(code_start(HuffCode { code: 0b1111111111111010, len: 16 }) == 65530);
    } else if i == 157 {
        assert(ac_order(157) == (15u8, 6u8) && ac_order(158) == (15u8, 7u8));
        assert(ac_code_spec(15u8, 6u8) == Some(HuffCode { code: 0b1111111111111010, len: 16 }));
        assert(ac_code_spec(15u8, 7u8) == Some(HuffCode { code: 0b1111111111111011, len: 16 }));
        assert(code_end(HuffCode { code: 0b1111111111111010, len: 16 }) == 65531);
        assert(code_start(HuffCode { code: 0b1111111111111011, len: 16 }) == 65531);
    } else if i == 158 {
        assert(ac_order(158) == (15u8, 7u8) && ac_order(159) == (15u8, 8u8));
        assert(ac_code_spec(15u8, 7u8) == Some(HuffCode { code: 0b1111111111111011, len: 16 }));
        assert(ac_code_spec(15u8, 8u8) == Some(HuffCode { code: 0b1111111111111100, len: 16 }));
        assert(code_end(HuffCode { code: 0b1111111111111011, len: 16 }) == 65532);
        assert(code_start(HuffCode { code: 0b1111111111111100, len: 16 }) == 65532);
    } else if i == 159 {
        assert(ac_order(159) == (15u8, 8u8) && ac_order(160) == (15u8, 9u8));
        assert(ac_code_spec(15u8, 8u8) == Some(HuffCode { code: 0b1111111111111100, len: 16 }));
        assert(ac_code_spec(15u8, 9u8) == Some(HuffCode { code: 0b1111111111111101, len: 16 }));
        assert(code_end(HuffCode { code: 0b1111111111111100, len: 16 }) == 65533);
        assert(code_start(HuffCode { code: 0b1111111111111101, len: 16 }) == 65533);
    } else if i == 160 {
        assert(ac_order(160) == (15u8, 9u8) && ac_order(161) == (15u8, 10u8));
        assert(ac_code_spec(15u8, 9u8) == Some(HuffCode { code: 0b1111111111111101, len: 16 }));
        assert(ac_code_spec(15u8, 10u8) == Some(HuffCode { code: 0b1111111111111110, len: 16 }));
        assert(code_end(HuffCode { code: 0b1111111111111101, len: 16 }) == 65534);
        assert(code_start(HuffCode { code: 0b1111111111111110, len: 16 }) == 65534);
    }
}


/// Codes earlier in the AC order cover windows below those of later codes.
proof fn lemma_ac_order_mono(i: int, j: int)
    requires
        0 <= i < j < 162,
    ensures
        code_end(ac_code_spec(ac_order(i).0, ac_order(i).1)->0) <= code_start(
            ac_code_spec(ac_order(j).0, ac_order(j).1)->0,
        ),
    decreases j - i,
{
    lemma_ac_order_step(j - 1);
    if j - 1 > i {
        lemma_ac_order_mono(i, j - 1);
        lemma_ac_order_entry(j - 1);
        let k = ac_order(j - 1);
        lemma_ac_table_entries(k.0, k.1);
        lemma_window_unit(ac_code_spec(k.0, k.1)->0);
    }
}

/// No code word of the AC table is a prefix of another: the windows that two
/// different entries cover are disjoint.
pub proof fn lemma_ac_prefix_free(r1: u8, c1: u8, r2: u8, c2: u8)
    requires
        ac_code_spec(r1, c1) is Some,
        ac_code_spec(r2, c2) is Some,
        (r1, c1) != (r2, c2),
    ensures
        code_end(ac_code_spec(r1, c1)->0) <= code_start(ac_code_spec(r2, c2)->0)
            || code_end(ac_code_spec(r2, c2)->0) <= code_start(ac_code_spec(r1, c1)->0),
{
    lemma_ac_rank_entry(r1, c1);
    lemma_ac_rank_entry(r2, c2);
    let i = ac_rank(r1, c1);
    let j = ac_rank(r2, c2);
    if i < j {
        lemma_ac_order_mono(i, j);
    } else {
        lemma_ac_order_mono(j, i);
    }
}

/// No code word of the DC table is a prefix of another.
pub proof fn lemma_dc_prefix_free(c1: u8, c2: u8)
    requires
        dc_code_spec(c1) is Some,
        dc_code_spec(c2) is Some,
        c1 != c2,
    ensures
        code_end(dc_code_spec(c1)->0) <= code_start(dc_code_spec(c2)->0)
            || code_end(dc_code_spec(c2)->0) <= code_start(dc_code_spec(c1)->0),
{
}

/// An entry of a decoding table: the run of zeros (17 for a DC value), the
/// category of the value, and the length of the code word.
#[derive(Debug, Clone, Copy, PartialEq, Eq, Structural)]
pub struct InvertedHuf {
    pub run: u8,
    pub cat: u8,
    pub huf_len: u8,
}

/// The entry of a window that no code word starts.
pub open spec fn no_code() -> InvertedHuf {
    InvertedHuf { run: 0, cat: 0, huf_len: 0 }
}

/// The decoding entry of DC category `cat`.
pub open spec fn dc_entry(cat: u8) -> InvertedHuf {
    InvertedHuf { run: 17, cat, huf_len: dc_code_spec(cat)->0.len }
}

/// The decoding entry of AC run `run` and category `cat`.
pub open spec fn ac_entry(run: u8, cat: u8) -> InvertedHuf {
    InvertedHuf { run, cat, huf_len: ac_code_spec(run, cat)->0.len }
}

/// A DC category whose code word starts the window `w`.
pub open spec fn dc_covers(cat: u8, w: int) -> bool {
    dc_code_spec(cat) is Some && covers(dc_code_spec(cat)->0, w)
}

/// An AC run and category whose code word starts the window `w`.
pub open spec fn ac_covers(run: u8, cat: u8, w: int) -> bool {
    ac_code_spec(run, cat) is Some && covers(ac_code_spec(run, cat)->0, w)
}

/// What the DC decoding table holds for the 16-bit window `w`: the entry of
/// the code word that starts it, if there is one.
pub open spec fn dc_lut_spec(w: int) -> InvertedHuf {
    if exists|c: u8| dc_covers(c, w) {
        dc_entry(choose|c: u8| dc_covers(c, w))
    } else {
        no_code()
    }
}

/// What the AC decoding table holds for the 16-bit window `w`.
pub open spec fn ac_lut_spec(w: int) -> InvertedHuf {
    if exists|rc: (u8, u8)| ac_covers(rc.0, rc.1, w) {
        let rc = choose|rc: (u8, u8)| ac_covers(rc.0, rc.1, w);
        ac_entry(rc.0, rc.1)
    } else {
        no_code()
    }
}

/// Fills `lut[start..start + count]` with `entry`.
fn fill_range(lut: &mut Vec<InvertedHuf>, start: usize, count: usize, entry: InvertedHuf)
    requires
        start + count <= old(lut)@.len(),
    ensures
        final(lut)@.len() == old(lut)@.len(),
        forall|w: int|
            0 <= w < old(lut)@.len() ==> #[trigger] final(lut)@[w] == if start <= w < start + count {
                entry
            } else {
                old(lut)@[w]
            },
{
    let ghost before = lut@;
    let n = lut.len();
    let end = start + count;
    let mut w = start;
    while w < end
        invariant
            end == start + count,
            start <= w <= start + count,
            start + count <= before.len(),
            lut@.len() == before.len(),
            forall|v: int|
                0 <= v < before.len() ==> #[trigger] lut@[v] == if start <= v < w {
                    entry
                } else {
                    before[v]
                },
        decreases end - w,
    {
        lut.set(w, entry);
        w = w + 1;
    }
}

/// The first window and the number of windows that a code word starts.
fn code_range(huff: &HuffCode) -> (r: (usize, usize))
    requires
        code_ok(*huff),
    ensures
        r.0 == code_start(*huff),
        r.1 == window_unit(huff.len),
        r.0 + r.1 == code_end(*huff),
        code_end(*huff) <= 65536,
{
    proof {
        lemma_window_unit(*huff);
        lemma2_to64();
        vstd::arithmetic::power2::lemma_pow2_adds(huff.len as nat, (16 - huff.len) as nat);
        vstd::arithmetic::mul::lemma_mul_inequality(huff.code as int + 1, pow2(huff.len as nat) as int, pow2((16 - huff.len) as nat) as int);
        vstd::bits::lemma_u32_shl_is_mul(huff.code, (16 - huff.len) as u32);
        vstd::bits::lemma_usize_shl_is_mul(1, (16 - huff.len) as usize);
    }
    let shift = 16 - huff.len;
    let start = (huff.code << (shift as u32)) as usize;
    let count = 1usize << (shift as usize);
    (start, count)
}

/// The DC decoding table: for each 16-bit window, the category and code length
/// of the DC code word that starts it (with run 17).
pub fn lut_dc(table: &HashMap<u8, HuffCode>) -> (lut: Vec<InvertedHuf>)
    requires
        table@ == dc_table_map(),
    ensures
        lut@.len() == 65536,
        forall|w: int| 0 <= w < 65536 ==> #[trigger] lut@[w] == dc_lut_spec(w),
{
    let mut lut = vec![InvertedHuf { run: 0, cat: 0, huf_len: 0 }; 65536];
    let mut cat: u16 = 0;
    while cat < 256
        invariant
            table@ == dc_table_map(),
            cat <= 256,
            lut@.len() == 65536,
            forall|w: int|
                0 <= w < 65536 ==> #[trigger] lut@[w] == no_code() || (lut@[w].cat < cat && dc_covers(
                    lut@[w].cat,
                    w,
                ) && lut@[w] == dc_entry(lut@[w].cat)),
            forall|w: int, c: u8| 0 <= w < 65536 && c < cat && #[trigger] dc_covers(c, w) ==> #[trigger] lut@[w] == dc_entry(c),
        decreases 256 - cat,
    {
        let key = cat as u8;
        if let Some(huff) = table.get(&key) {
            proof {
                lemma_dc_table_entries(key);
            }
            let (start, count) = code_range(huff);
            let entry = InvertedHuf { run: 17, cat: key, huf_len: huff.len };
            let ghost before = lut@;
            fill_range(&mut lut, start, count, entry);
            proof {
                assert forall|w: int, c: u8| 0 <= w < 65536 && c < cat + 1 && #[trigger] dc_covers(c, w) implies #[trigger] lut@[w] == dc_entry(c) by {
                    if c != key {
                        lemma_dc_prefix_free(c, key);
                    }
                }
                assert forall|w: int| 0 <= w < 65536 implies #[trigger] lut@[w] == no_code() || (lut@[w].cat < cat + 1 && dc_covers(
                    lut@[w].cat,
                    w,
                ) && lut@[w] == dc_entry(lut@[w].cat)) by {
                    if start <= w < start + count {
                        assert(dc_covers(key, w));
                    } else {
                        assert(lut@[w] == before[w]);
                    }
                }
            }
        }
        cat = cat + 1;
    }
    proof {
        assert forall|w: int| 0 <= w < 65536 implies #[trigger] lut@[w] == dc_lut_spec(w) by {
            if exists|c: u8| dc_covers(c, w) {
                let c = choose|c: u8| dc_covers(c, w);
                assert(lut@[w] == dc_entry(c));
            } else {
                if lut@[w] != no_code() {
                    assert(dc_covers(lut@[w].cat, w));
                }
            }
        }
    }
    lut
}

/// The AC decoding table: for each 16-bit window, the run, category and code
/// length of the AC code word that starts it.
pub fn lut_ac(table: &HashMap<u16, HuffCode>) -> (lut: Vec<InvertedHuf>)
    requires
        table@ == ac_table_map(),
    ensures
        lut@.len() == 65536,
        forall|w: int| 0 <= w < 65536 ==> #[trigger] lut@[w] == ac_lut_spec(w),
{
    let mut lut = vec![InvertedHuf { run: 0, cat: 0, huf_len: 0 }; 65536];
    let mut run: u8 = 0;
    while run < 16
        invariant
            table@ == ac_table_map(),
            run <= 16,
            lut@.len() == 65536,
            forall|w: int|
                0 <= w < 65536 ==> #[trigger] lut@[w] == no_code() || (lut@[w].run < run && ac_covers(
                    lut@[w].run,
                    lut@[w].cat,
                    w,
                ) && lut@[w] == ac_entry(lut@[w].run, lut@[w].cat)),
            forall|w: int, r: u8, c: u8| 0 <= w < 65536 && r < run && #[trigger] ac_covers(r, c, w) ==> #[trigger] lut@[w] == ac_entry(r, c),
        decreases 16 - run,
    {
        let mut cat: u8 = 0;
        while cat < 11
            invariant
                table@ == ac_table_map(),
                run < 16,
                cat <= 11,
                lut@.len() == 65536,
                forall|w: int|
                    0 <= w < 65536 ==> #[trigger] lut@[w] == no_code() || ((lut@[w].run < run || (lut@[w].run == run && lut@[w].cat < cat)) && ac_covers(
                        lut@[w].run,
                        lut@[w].cat,
                        w,
                    ) && lut@[w] == ac_entry(lut@[w].run, lut@[w].cat)),
                forall|w: int, r: u8, c: u8| 0 <= w < 65536 && (r < run || (r == run && c < cat)) && #[trigger] ac_covers(r, c, w) ==> #[trigger] lut@[w] == ac_entry(r, c),
            decreases 11 - cat,
        {
            let key = ac_key_of(run, cat);
            assert(key / 256 == run && key % 256 == cat);
            if let Some(huff) = table.get(&key) {
                proof {
                    lemma_ac_table_entries(run, cat);
                }
                let (start, count) = code_range(huff);
                let entry = InvertedHuf { run, cat, huf_len: huff.len };
                let ghost before = lut@;
                fill_range(&mut lut, start, count, entry);
                proof {
                    assert forall|w: int, r: u8, c: u8| 0 <= w < 65536 && (r < run || (r == run && c < cat + 1)) && #[trigger] ac_covers(r, c, w) implies #[trigger] lut@[w] == ac_entry(r, c) by {
                        if (r, c) != (run, cat) {
                            lemma_ac_prefix_free(r, c, run, cat);
                        }
                    }
                    assert forall|w: int| 0 <= w < 65536 implies #[trigger] lut@[w] == no_code() || ((lut@[w].run < run || (lut@[w].run == run && lut@[w].cat < cat + 1)) && ac_covers(
                        lut@[w].run,
                        lut@[w].cat,
                        w,
                    ) && lut@[w] == ac_entry(lut@[w].run, lut@[w].cat)) by {
                        if start <= w < start + count {
                            assert(ac_covers(run, cat, w));
                        } else {
                            assert(lut@[w] == before[w]);
                        }
                    }
                }
            } else {
                proof {
                    assert(ac_code_spec(run, cat) is None);
                }
            }
            cat = cat + 1;
        }
        proof {
            assert forall|w: int, r: u8, c: u8| 0 <= w < 65536 && r == run && c >= 11 && #[trigger] ac_covers(r, c, w) implies #[trigger] lut@[w] == ac_entry(r, c) by {
                lemma_ac_table_entries(r, c);
            }
        }
        run = run + 1;
    }
    proof {
        assert forall|w: int| 0 <= w < 65536 implies #[trigger] lut@[w] == ac_lut_spec(w) by {
            if exists|rc: (u8, u8)| ac_covers(rc.0, rc.1, w) {
                let rc = choose|rc: (u8, u8)| ac_covers(rc.0, rc.1, w);
                lemma_ac_table_entries(rc.0, rc.1);
                assert(lut@[w] == ac_entry(rc.0, rc.1));
            } else {
                if lut@[w] != no_code() {
                    let rc = (lut@[w].run, lut@[w].cat);
                    assert(ac_covers(rc.0, rc.1, w));
                }
            }
        }
    }
    lut
}

} // verus!
