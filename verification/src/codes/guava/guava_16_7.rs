//! The `[16, 7]` code of the GUAVA database, with its syndrome table.

use crate::binary_matrix::BinMatrix;
use crate::binary_vector::BinVector;
use crate::bits::{fits, parity_below, span, unpack, word_bit};
use crate::codes::linear_code::LinearCode;
use crate::codes::model::CodeModel;
use crate::codes::packed::{packed_model, packed_wf};
use crate::codes::syndrome_map::SyndromeMap;
use crate::codes::BinaryCode;
use crate::error::CodeError;
use crate::gf2::zeros;
use crate::oracle::Sample;
use vstd::prelude::*;

verus! {

/// ``[16, 7]`` Guava code
///
/// Best code found from the GUAVA database version 3.15
///
/// Decodes using Syndrome decoding
#[derive(Clone, Copy, Debug)]
pub struct GuavaCode16_7;

/// The number of bits of a codeword.
pub const LENGTH: usize = 16;

/// The number of bits of a message.
pub const DIMENSION: usize = 7;

/// The number of syndromes.
pub const SYNDROMES: u64 = 512;

/// Row `i` of the generator matrix, packed: bit `j` is column `j`.
pub open spec fn generator_word(i: u64) -> u64 {
    if i == 0 {
        30977
    } else if i == 1 {
        39298
    } else if i == 2 {
        45828
    } else if i == 3 {
        58888
    } else if i == 4 {
        10128
    } else if i == 5 {
        20256
    } else if i == 6 {
        62912
    } else {
        0
    }
}

/// Row `j` of the parity-check matrix, packed.
pub open spec fn parity_word(j: u64) -> u64 {
    if j == 0 {
        61953
    } else if j == 1 {
        58370
    } else if j == 2 {
        51204
    } else if j == 3 {
        25096
    } else if j == 4 {
        46608
    } else if j == 5 {
        7712
    } else if j == 6 {
        52800
    } else if j == 7 {
        40064
    } else if j == 8 {
        47360
    } else {
        0
    }
}

/// The error pattern of least weight that has the syndrome `s`, packed.
pub open spec fn leader(s: u64) -> u64 {
    if s == 0 {
        0
    } else if s == 1 {
        1
    } else if s == 2 {
        2
    } else if s == 4 {
        4
    } else if s == 8 {
        8
    } else if s == 16 {
        16
    } else if s == 32 {
        32
    } else if s == 64 {
        64
    } else if s == 128 {
        128
    } else if s == 256 {
        256
    } else if s == 121 {
        512
    } else if s == 242 {
        1024
    } else if s == 484 {
        2048
    } else if s == 433 {
        4096
    } else if s == 283 {
        8192
    } else if s == 79 {
        16384
    } else if s == 471 {
        32768
    } else if s == 3 {
        3
    } else if s == 5 {
        5
    } else if s == 9 {
        9
    } else if s == 17 {
        17
    } else if s == 33 {
        33
    } else if s == 65 {
        65
    } else if s == 129 {
        129
    } else if s == 257 {
        257
    } else if s == 120 {
        513
    } else if s == 243 {
        1025
    } else if s == 485 {
        2049
    } else if s == 432 {
        4097
    } else if s == 282 {
        8193
    } else if s == 78 {
        16385
    } else if s == 470 {
        32769
    } else if s == 6 {
        6
    } else if s == 10 {
        10
    } else if s == 18 {
        18
    } else if s == 34 {
        34
    } else if s == 66 {
        66
    } else if s == 130 {
        130
    } else if s == 258 {
        258
    } else if s == 123 {
        514
    } else if s == 240 {
        1026
    } else if s == 486 {
        2050
    } else if s == 435 {
        4098
    } else if s == 281 {
        8194
    } else if s == 77 {
        16386
    } else if s == 469 {
        32770
    } else if s == 12 {
        12
    } else if s == 20 {
        20
    } else if s == 36 {
        36
    } else if s == 68 {
        68
    } else if s == 132 {
        132
    } else if s == 260 {
        260
    } else if s == 125 {
        516
    } else if s == 246 {
        1028
    } else if s == 480 {
        2052
    } else if s == 437 {
        4100
    } else if s == 287 {
        8196
    } else if s == 75 {
        16388
    } else if s == 467 {
        32772
    } else if s == 24 {
        24
    } else if s == 40 {
        40
    } else if s == 72 {
        72
    } else if s == 136 {
        136
    } else if s == 264 {
        264
    } else if s == 113 {
        520
    } else if s == 250 {
        1032
    } else if s == 492 {
        2056
    } else if s == 441 {
        4104
    } else if s == 275 {
        8200
    } else if s == 71 {
        16392
    } else if s == 479 {
        32776
    } else if s == 48 {
        48
    } else if s == 80 {
        80
    } else if s == 144 {
        144
    } else if s == 272 {
        272
    } else if s == 105 {
        528
    } else if s == 226 {
        1040
    } else if s == 500 {
        2064
    } else if s == 417 {
        4112
    } else if s == 267 {
        8208
    } else if s == 95 {
        16400
    } else if s == 455 {
        32784
    } else if s == 96 {
        96
    } else if s == 160 {
        160
    } else if s == 288 {
        288
    } else if s == 89 {
        544
    } else if s == 210 {
        1056
    } else if s == 452 {
        2080
    } else if s == 401 {
        4128
    } else if s == 315 {
        8224
    } else if s == 111 {
        16416
    } else if s == 503 {
        32800
    } else if s == 192 {
        192
    } else if s == 320 {
        320
    } else if s == 57 {
        576
    } else if s == 178 {
        1088
    } else if s == 420 {
        2112
    } else if s == 497 {
        4160
    } else if s == 347 {
        8256
    } else if s == 15 {
        16448
    } else if s == 407 {
        32832
    } else if s == 384 {
        384
    } else if s == 249 {
        640
    } else if s == 114 {
        1152
    } else if s == 356 {
        2176
    } else if s == 305 {
        4224
    } else if s == 411 {
        8320
    } else if s == 207 {
        16512
    } else if s == 343 {
        32896
    } else if s == 377 {
        768
    } else if s == 498 {
        1280
    } else if s == 228 {
        2304
    } else if s == 177 {
        4352
    } else if s == 27 {
        8448
    } else if s == 335 {
        16640
    } else if s == 215 {
        33024
    } else if s == 139 {
        1536
    } else if s == 413 {
        2560
    } else if s == 456 {
        4608
    } else if s == 354 {
        8704
    } else if s == 54 {
        16896
    } else if s == 430 {
        33280
    } else if s == 278 {
        3072
    } else if s == 323 {
        5120
    } else if s == 489 {
        9216
    } else if s == 189 {
        17408
    } else if s == 293 {
        33792
    } else if s == 85 {
        6144
    } else if s == 255 {
        10240
    } else if s == 427 {
        18432
    } else if s == 51 {
        34816
    } else if s == 170 {
        12288
    } else if s == 510 {
        20480
    } else if s == 102 {
        36864
    } else if s == 340 {
        24576
    } else if s == 204 {
        40960
    } else if s == 408 {
        49152
    } else if s == 7 {
        7
    } else if s == 11 {
        11
    } else if s == 19 {
        19
    } else if s == 35 {
        35
    } else if s == 67 {
        67
    } else if s == 131 {
        131
    } else if s == 259 {
        259
    } else if s == 122 {
        515
    } else if s == 241 {
        1027
    } else if s == 487 {
        2051
    } else if s == 434 {
        4099
    } else if s == 280 {
        8195
    } else if s == 76 {
        16387
    } else if s == 468 {
        32771
    } else if s == 13 {
        13
    } else if s == 21 {
        21
    } else if s == 37 {
        37
    } else if s == 69 {
        69
    } else if s == 133 {
        133
    } else if s == 261 {
        261
    } else if s == 124 {
        517
    } else if s == 247 {
        1029
    } else if s == 481 {
        2053
    } else if s == 436 {
        4101
    } else if s == 286 {
        8197
    } else if s == 74 {
        16389
    } else if s == 466 {
        32773
    } else if s == 25 {
        25
    } else if s == 41 {
        41
    } else if s == 73 {
        73
    } else if s == 137 {
        137
    } else if s == 265 {
        265
    } else if s == 112 {
        521
    } else if s == 251 {
        1033
    } else if s == 493 {
        2057
    } else if s == 440 {
        4105
    } else if s == 274 {
        8201
    } else if s == 70 {
        16393
    } else if s == 478 {
        32777
    } else if s == 49 {
        49
    } else if s == 81 {
        81
    } else if s == 145 {
        145
    } else if s == 273 {
        273
    } else if s == 104 {
        529
    } else if s == 227 {
        1041
    } else if s == 501 {
        2065
    } else if s == 416 {
        4113
    } else if s == 266 {
        8209
    } else if s == 94 {
        16401
    } else if s == 454 {
        32785
    } else if s == 97 {
        97
    } else if s == 161 {
        161
    } else if s == 289 {
        289
    } else if s == 88 {
        545
    } else if s == 211 {
        1057
    } else if s == 453 {
        2081
    } else if s == 400 {
        4129
    } else if s == 314 {
        8225
    } else if s == 110 {
        16417
    } else if s == 502 {
        32801
    } else if s == 193 {
        193
    } else if s == 321 {
        321
    } else if s == 56 {
        577
    } else if s == 179 {
        1089
    } else if s == 421 {
        2113
    } else if s == 496 {
        4161
    } else if s == 346 {
        8257
    } else if s == 14 {
        16449
    } else if s == 406 {
        32833
    } else if s == 385 {
        385
    } else if s == 248 {
        641
    } else if s == 115 {
        1153
    } else if s == 357 {
        2177
    } else if s == 304 {
        4225
    } else if s == 410 {
        8321
    } else if s == 206 {
        16513
    } else if s == 342 {
        32897
    } else if s == 376 {
        769
    } else if s == 499 {
        1281
    } else if s == 229 {
        2305
    } else if s == 176 {
        4353
    } else if s == 26 {
        8449
    } else if s == 334 {
        16641
    } else if s == 214 {
        33025
    } else if s == 138 {
        1537
    } else if s == 412 {
        2561
    } else if s == 457 {
        4609
    } else if s == 355 {
        8705
    } else if s == 55 {
        16897
    } else if s == 431 {
        33281
    } else if s == 279 {
        3073
    } else if s == 322 {
        5121
    } else if s == 488 {
        9217
    } else if s == 188 {
        17409
    } else if s == 292 {
        33793
    } else if s == 84 {
        6145
    } else if s == 254 {
        10241
    } else if s == 426 {
        18433
    } else if s == 50 {
        34817
    } else if s == 171 {
        12289
    } else if s == 511 {
        20481
    } else if s == 103 {
        36865
    } else if s == 341 {
        24577
    } else if s == 205 {
        40961
    } else if s == 409 {
        49153
    } else if s == 22 {
        22
    } else if s == 38 {
        38
    } else if s == 134 {
        134
    } else if s == 262 {
        262
    } else if s == 127 {
        518
    } else if s == 244 {
        1030
    } else if s == 482 {
        2054
    } else if s == 439 {
        4102
    } else if s == 285 {
        8198
    } else if s == 465 {
        32774
    } else if s == 42 {
        42
    } else if s == 494 {
        2058
    } else if s == 443 {
        4106
    } else if s == 477 {
        32778
    } else if s == 82 {
        82
    } else if s == 146 {
        146
    } else if s == 107 {
        530
    } else if s == 224 {
        1042
    } else if s == 419 {
        4114
    } else if s == 93 {
        16402
    } else if s == 98 {
        98
    } else if s == 162 {
        162
    } else if s == 290 {
        290
    } else if s == 91 {
        546
    } else if s == 208 {
        1058
    } else if s == 403 {
        4130
    } else if s == 313 {
        8226
    } else if s == 109 {
        16418
    } else if s == 194 {
        194
    } else if s == 59 {
        578
    } else if s == 422 {
        2114
    } else if s == 345 {
        8258
    } else if s == 405 {
        32834
    } else if s == 386 {
        386
    } else if s == 358 {
        2178
    } else if s == 307 {
        4226
    } else if s == 379 {
        770
    } else if s == 230 {
        2306
    } else if s == 333 {
        16642
    } else if s == 213 {
        33026
    } else if s == 415 {
        2562
    } else if s == 458 {
        4610
    } else if s == 352 {
        8706
    } else if s == 52 {
        16898
    } else if s == 428 {
        33282
    } else if s == 276 {
        3074
    } else if s == 491 {
        9218
    } else if s == 191 {
        17410
    } else if s == 295 {
        33794
    } else if s == 87 {
        6146
    } else if s == 253 {
        10242
    } else if s == 425 {
        18434
    } else if s == 168 {
        12290
    } else if s == 508 {
        20482
    } else if s == 100 {
        36866
    } else if s == 28 {
        28
    } else if s == 44 {
        44
    } else if s == 140 {
        140
    } else if s == 268 {
        268
    } else if s == 117 {
        524
    } else if s == 445 {
        4108
    } else if s == 475 {
        32780
    } else if s == 148 {
        148
    } else if s == 271 {
        8212
    } else if s == 451 {
        32788
    } else if s == 164 {
        164
    } else if s == 448 {
        2084
    } else if s == 319 {
        8228
    } else if s == 196 {
        196
    } else if s == 324 {
        324
    } else if s == 61 {
        580
    } else if s == 182 {
        1092
    } else if s == 351 {
        8260
    } else if s == 388 {
        388
    } else if s == 118 {
        1156
    } else if s == 309 {
        4228
    } else if s == 203 {
        16516
    } else if s == 339 {
        32900
    } else if s == 381 {
        772
    } else if s == 181 {
        4356
    } else if s == 31 {
        8452
    } else if s == 331 {
        16644
    } else if s == 143 {
        1540
    } else if s == 460 {
        4612
    } else if s == 327 {
        5124
    } else if s == 185 {
        17412
    } else if s == 174 {
        12292
    } else if s == 506 {
        20484
    } else if s == 336 {
        24580
    } else if s == 200 {
        40964
    } else if s == 152 {
        152
    } else if s == 234 {
        1048
    } else if s == 463 {
        32792
    } else if s == 296 {
        296
    } else if s == 218 {
        1064
    } else if s == 328 {
        328
    } else if s == 186 {
        1096
    } else if s == 505 {
        4168
    } else if s == 392 {
        392
    } else if s == 364 {
        2184
    } else if s == 199 {
        16520
    } else if s == 369 {
        776
    } else if s == 236 {
        2312
    } else if s == 223 {
        33032
    } else if s == 362 {
        8712
    } else if s == 62 {
        16904
    } else if s == 301 {
        33800
    } else if s == 348 {
        24584
    } else if s == 299 {
        8240
    } else if s == 391 {
        32848
    } else if s == 233 {
        656
    } else if s == 372 {
        2192
    } else if s == 395 {
        8336
    } else if s == 361 {
        784
    } else if s == 155 {
        1552
    } else if s == 397 {
        2576
    } else if s == 472 {
        4624
    } else if s == 370 {
        8720
    } else if s == 446 {
        33296
    } else if s == 173 {
        17424
    } else if s == 239 {
        10256
    } else if s == 220 {
        40976
    } else if s == 47 {
        16480
    } else if s == 217 {
        672
    } else if s == 375 {
        32928
    } else if s == 367 {
        16672
    } else if s == 398 {
        33312
    } else if s == 310 {
        3104
    } else if s == 157 {
        17440
    } else if s == 151 {
        33088
    } else if s == 302 {
        33408
    } else if s == 382 {
        20608
    } else if s == 167 {
        7168
    } else if s == 23 {
        23
    } else if s == 39 {
        39
    } else if s == 135 {
        135
    } else if s == 263 {
        263
    } else if s == 126 {
        519
    } else if s == 245 {
        1031
    } else if s == 483 {
        2055
    } else if s == 438 {
        4103
    } else if s == 284 {
        8199
    } else if s == 464 {
        32775
    } else if s == 43 {
        43
    } else if s == 495 {
        2059
    } else if s == 442 {
        4107
    } else if s == 476 {
        32779
    } else if s == 83 {
        83
    } else if s == 147 {
        147
    } else if s == 106 {
        531
    } else if s == 225 {
        1043
    } else if s == 418 {
        4115
    } else if s == 92 {
        16403
    } else if s == 99 {
        99
    } else if s == 163 {
        163
    } else if s == 291 {
        291
    } else if s == 90 {
        547
    } else if s == 209 {
        1059
    } else if s == 402 {
        4131
    } else if s == 312 {
        8227
    } else if s == 108 {
        16419
    } else if s == 195 {
        195
    } else if s == 58 {
        579
    } else if s == 423 {
        2115
    } else if s == 344 {
        8259
    } else if s == 404 {
        32835
    } else if s == 387 {
        387
    } else if s == 359 {
        2179
    } else if s == 306 {
        4227
    } else if s == 378 {
        771
    } else if s == 231 {
        2307
    } else if s == 332 {
        16643
    } else if s == 212 {
        33027
    } else if s == 414 {
        2563
    } else if s == 459 {
        4611
    } else if s == 353 {
        8707
    } else if s == 53 {
        16899
    } else if s == 429 {
        33283
    } else if s == 277 {
        3075
    } else if s == 490 {
        9219
    } else if s == 190 {
        17411
    } else if s == 294 {
        33795
    } else if s == 86 {
        6147
    } else if s == 252 {
        10243
    } else if s == 424 {
        18435
    } else if s == 169 {
        12291
    } else if s == 509 {
        20483
    } else if s == 101 {
        36867
    } else if s == 29 {
        29
    } else if s == 45 {
        45
    } else if s == 141 {
        141
    } else if s == 269 {
        269
    } else if s == 116 {
        525
    } else if s == 444 {
        4109
    } else if s == 474 {
        32781
    } else if s == 149 {
        149
    } else if s == 270 {
        8213
    } else if s == 450 {
        32789
    } else if s == 165 {
        165
    } else if s == 449 {
        2085
    } else if s == 318 {
        8229
    } else if s == 197 {
        197
    } else if s == 325 {
        325
    } else if s == 60 {
        581
    } else if s == 183 {
        1093
    } else if s == 350 {
        8261
    } else if s == 389 {
        389
    } else if s == 119 {
        1157
    } else if s == 308 {
        4229
    } else if s == 202 {
        16517
    } else if s == 338 {
        32901
    } else if s == 380 {
        773
    } else if s == 180 {
        4357
    } else if s == 30 {
        8453
    } else if s == 330 {
        16645
    } else if s == 142 {
        1541
    } else if s == 461 {
        4613
    } else if s == 326 {
        5125
    } else if s == 184 {
        17413
    } else if s == 175 {
        12293
    } else if s == 507 {
        20485
    } else if s == 337 {
        24581
    } else if s == 201 {
        40965
    } else if s == 153 {
        153
    } else if s == 235 {
        1049
    } else if s == 462 {
        32793
    } else if s == 297 {
        297
    } else if s == 219 {
        1065
    } else if s == 329 {
        329
    } else if s == 187 {
        1097
    } else if s == 504 {
        4169
    } else if s == 393 {
        393
    } else if s == 365 {
        2185
    } else if s == 198 {
        16521
    } else if s == 368 {
        777
    } else if s == 237 {
        2313
    } else if s == 222 {
        33033
    } else if s == 363 {
        8713
    } else if s == 63 {
        16905
    } else if s == 300 {
        33801
    } else if s == 349 {
        24585
    } else if s == 298 {
        8241
    } else if s == 390 {
        32849
    } else if s == 232 {
        657
    } else if s == 373 {
        2193
    } else if s == 394 {
        8337
    } else if s == 360 {
        785
    } else if s == 154 {
        1553
    } else if s == 396 {
        2577
    } else if s == 473 {
        4625
    } else if s == 371 {
        8721
    } else if s == 447 {
        33297
    } else if s == 172 {
        17425
    } else if s == 238 {
        10257
    } else if s == 221 {
        40977
    } else if s == 46 {
        16481
    } else if s == 216 {
        673
    } else if s == 374 {
        32929
    } else if s == 366 {
        16673
    } else if s == 399 {
        33313
    } else if s == 311 {
        3105
    } else if s == 156 {
        17441
    } else if s == 150 {
        33089
    } else if s == 303 {
        33409
    } else if s == 383 {
        20609
    } else if s == 166 {
        7169
    } else if s == 317 {
        8230
    } else if s == 159 {
        17442
    } else if s == 316 {
        8231
    } else if s == 158 {
        17443
    } else {
        0
    }
}

/// The rows of the generator matrix.
pub open spec fn generator_words() -> Seq<u64> {
    Seq::new(DIMENSION as nat, |i: int| generator_word(i as u64))
}

/// The rows of the parity-check matrix.
pub open spec fn parity_words() -> Seq<u64> {
    Seq::new((LENGTH - DIMENSION) as nat, |j: int| parity_word(j as u64))
}

/// The syndrome table.
pub open spec fn leaders() -> Map<u64, u64> {
    Map::new(|s: u64| s < SYNDROMES, |s: u64| leader(s))
}

/// The code.
pub open spec fn model() -> CodeModel {
    packed_model(LENGTH as nat, DIMENSION as nat, generator_words(), parity_words(), leaders())
}

/// The words of the code are those of a well-formed code: the table has
/// an entry of `LENGTH` bits for each syndrome, each entry has the
/// syndrome that it stands under, the rows of the generator matrix have
/// the zero syndrome, and the generator matrix starts with the identity.
#[verifier::rlimit(50)]
pub proof fn lemma_words()
    ensures
        packed_wf(LENGTH as nat, DIMENSION as nat, generator_words(), parity_words(), leaders()),
{
    let r = (LENGTH - DIMENSION) as nat;
    assert(span(r) == SYNDROMES) by {
        assert(1u64 << 9u64 == 512u64) by (bit_vector);
    }
    assert(forall|s: u64|
        s < 512 ==> parity_below(#[trigger] leader(s) & parity_word(0), 16) == word_bit(s, 0))
        by (bit_vector);
    assert(forall|s: u64|
        s < 512 ==> parity_below(#[trigger] leader(s) & parity_word(1), 16) == word_bit(s, 1))
        by (bit_vector);
    assert(forall|s: u64|
        s < 512 ==> parity_below(#[trigger] leader(s) & parity_word(2), 16) == word_bit(s, 2))
        by (bit_vector);
    assert(forall|s: u64|
        s < 512 ==> parity_below(#[trigger] leader(s) & parity_word(3), 16) == word_bit(s, 3))
        by (bit_vector);
    assert(forall|s: u64|
        s < 512 ==> parity_below(#[trigger] leader(s) & parity_word(4), 16) == word_bit(s, 4))
        by (bit_vector);
    assert(forall|s: u64|
        s < 512 ==> parity_below(#[trigger] leader(s) & parity_word(5), 16) == word_bit(s, 5))
        by (bit_vector);
    assert(forall|s: u64|
        s < 512 ==> parity_below(#[trigger] leader(s) & parity_word(6), 16) == word_bit(s, 6))
        by (bit_vector);
    assert(forall|s: u64|
        s < 512 ==> parity_below(#[trigger] leader(s) & parity_word(7), 16) == word_bit(s, 7))
        by (bit_vector);
    assert(forall|s: u64|
        s < 512 ==> parity_below(#[trigger] leader(s) & parity_word(8), 16) == word_bit(s, 8))
        by (bit_vector);
    assert(forall|s: u64| s < 512 ==> #[trigger] leader(s) >> 16u64 == 0) by (bit_vector);
    assert(forall|i: u64, j: u64|
        i < 7 && j < 9 ==> !parity_below(
            #[trigger] generator_word(i) & #[trigger] parity_word(j),
            16,
        )) by (bit_vector);
    assert(forall|i: u64, c: u64|
        i < 7 && c < 7 ==> #[trigger] word_bit(generator_word(i), c) == (i == c))
        by (bit_vector);
    assert forall|s: u64| s < span(r) implies fits(#[trigger] leaders()[s], LENGTH as nat) by {
        assert(leader(s) >> 16u64 == 0);
    }
    assert forall|s: u64, j: int| s < span(r) && 0 <= j < r implies #[trigger] parity_below(
        leaders()[s] & parity_words()[j],
        LENGTH as nat,
    ) == word_bit(s, j as u64) by {
        if j == 0 {
            assert(parity_below(leader(s) & parity_word(0), 16) == word_bit(s, 0));
        }
        if j == 1 {
            assert(parity_below(leader(s) & parity_word(1), 16) == word_bit(s, 1));
        }
        if j == 2 {
            assert(parity_below(leader(s) & parity_word(2), 16) == word_bit(s, 2));
        }
        if j == 3 {
            assert(parity_below(leader(s) & parity_word(3), 16) == word_bit(s, 3));
        }
        if j == 4 {
            assert(parity_below(leader(s) & parity_word(4), 16) == word_bit(s, 4));
        }
        if j == 5 {
            assert(parity_below(leader(s) & parity_word(5), 16) == word_bit(s, 5));
        }
        if j == 6 {
            assert(parity_below(leader(s) & parity_word(6), 16) == word_bit(s, 6));
        }
        if j == 7 {
            assert(parity_below(leader(s) & parity_word(7), 16) == word_bit(s, 7));
        }
        if j == 8 {
            assert(parity_below(leader(s) & parity_word(8), 16) == word_bit(s, 8));
        }
    }
    assert forall|i: int, j: int| 0 <= i < DIMENSION && 0 <= j < r implies !#[trigger] parity_below(
        generator_words()[i] & parity_words()[j],
        LENGTH as nat,
    ) by {
        assert(!parity_below(generator_word(i as u64) & parity_word(j as u64), 16));
    }
    assert forall|i: int, c: int| 0 <= i < DIMENSION && 0 <= c < DIMENSION implies #[trigger] word_bit(
        generator_words()[i],
        c as u64,
    ) == (i == c) by {
        assert(word_bit(generator_word(i as u64), c as u64) == (i as u64 == c as u64));
    }
}

/// The code is well formed, so that the laws of syndrome decoding hold
/// of it.
pub proof fn lemma_well_formed()
    ensures
        model().wf(),
{
    lemma_words();
    crate::codes::packed::lemma_packed_model_wf(
        LENGTH as nat,
        DIMENSION as nat,
        generator_words(),
        parity_words(),
        leaders(),
    );
}

fn generator_word_of(i: u64) -> (w: u64)
    ensures
        w == generator_word(i),
{
    match i {
        0 => 30977,
        1 => 39298,
        2 => 45828,
        3 => 58888,
        4 => 10128,
        5 => 20256,
        6 => 62912,
        _ => 0,
    }
}

fn parity_word_of(j: u64) -> (w: u64)
    ensures
        w == parity_word(j),
{
    match j {
        0 => 61953,
        1 => 58370,
        2 => 51204,
        3 => 25096,
        4 => 46608,
        5 => 7712,
        6 => 52800,
        7 => 40064,
        8 => 47360,
        _ => 0,
    }
}

fn leader_of(s: u64) -> (w: u64)
    ensures
        w == leader(s),
{
    match s {
        0 => 0,
        1 => 1,
        2 => 2,
        4 => 4,
        8 => 8,
        16 => 16,
        32 => 32,
        64 => 64,
        128 => 128,
        256 => 256,
        121 => 512,
        242 => 1024,
        484 => 2048,
        433 => 4096,
        283 => 8192,
        79 => 16384,
        471 => 32768,
        3 => 3,
        5 => 5,
        9 => 9,
        17 => 17,
        33 => 33,
        65 => 65,
        129 => 129,
        257 => 257,
        120 => 513,
        243 => 1025,
        485 => 2049,
        432 => 4097,
        282 => 8193,
        78 => 16385,
        470 => 32769,
        6 => 6,
        10 => 10,
        18 => 18,
        34 => 34,
        66 => 66,
        130 => 130,
        258 => 258,
        123 => 514,
        240 => 1026,
        486 => 2050,
        435 => 4098,
        281 => 8194,
        77 => 16386,
        469 => 32770,
        12 => 12,
        20 => 20,
        36 => 36,
        68 => 68,
        132 => 132,
        260 => 260,
        125 => 516,
        246 => 1028,
        480 => 2052,
        437 => 4100,
        287 => 8196,
        75 => 16388,
        467 => 32772,
        24 => 24,
        40 => 40,
        72 => 72,
        136 => 136,
        264 => 264,
        113 => 520,
        250 => 1032,
        492 => 2056,
        441 => 4104,
        275 => 8200,
        71 => 16392,
        479 => 32776,
        48 => 48,
        80 => 80,
        144 => 144,
        272 => 272,
        105 => 528,
        226 => 1040,
        500 => 2064,
        417 => 4112,
        267 => 8208,
        95 => 16400,
        455 => 32784,
        96 => 96,
        160 => 160,
        288 => 288,
        89 => 544,
        210 => 1056,
        452 => 2080,
        401 => 4128,
        315 => 8224,
        111 => 16416,
        503 => 32800,
        192 => 192,
        320 => 320,
        57 => 576,
        178 => 1088,
        420 => 2112,
        497 => 4160,
        347 => 8256,
        15 => 16448,
        407 => 32832,
        384 => 384,
        249 => 640,
        114 => 1152,
        356 => 2176,
        305 => 4224,
        411 => 8320,
        207 => 16512,
        343 => 32896,
        377 => 768,
        498 => 1280,
        228 => 2304,
        177 => 4352,
        27 => 8448,
        335 => 16640,
        215 => 33024,
        139 => 1536,
        413 => 2560,
        456 => 4608,
        354 => 8704,
        54 => 16896,
        430 => 33280,
        278 => 3072,
        323 => 5120,
        489 => 9216,
        189 => 17408,
        293 => 33792,
        85 => 6144,
        255 => 10240,
        427 => 18432,
        51 => 34816,
        170 => 12288,
        510 => 20480,
        102 => 36864,
        340 => 24576,
        204 => 40960,
        408 => 49152,
        7 => 7,
        11 => 11,
        19 => 19,
        35 => 35,
        67 => 67,
        131 => 131,
        259 => 259,
        122 => 515,
        241 => 1027,
        487 => 2051,
        434 => 4099,
        280 => 8195,
        76 => 16387,
        468 => 32771,
        13 => 13,
        21 => 21,
        37 => 37,
        69 => 69,
        133 => 133,
        261 => 261,
        124 => 517,
        247 => 1029,
        481 => 2053,
        436 => 4101,
        286 => 8197,
        74 => 16389,
        466 => 32773,
        25 => 25,
        41 => 41,
        73 => 73,
        137 => 137,
        265 => 265,
        112 => 521,
        251 => 1033,
        493 => 2057,
        440 => 4105,
        274 => 8201,
        70 => 16393,
        478 => 32777,
        49 => 49,
        81 => 81,
        145 => 145,
        273 => 273,
        104 => 529,
        227 => 1041,
        501 => 2065,
        416 => 4113,
        266 => 8209,
        94 => 16401,
        454 => 32785,
        97 => 97,
        161 => 161,
        289 => 289,
        88 => 545,
        211 => 1057,
        453 => 2081,
        400 => 4129,
        314 => 8225,
        110 => 16417,
        502 => 32801,
        193 => 193,
        321 => 321,
        56 => 577,
        179 => 1089,
        421 => 2113,
        496 => 4161,
        346 => 8257,
        14 => 16449,
        406 => 32833,
        385 => 385,
        248 => 641,
        115 => 1153,
        357 => 2177,
        304 => 4225,
        410 => 8321,
        206 => 16513,
        342 => 32897,
        376 => 769,
        499 => 1281,
        229 => 2305,
        176 => 4353,
        26 => 8449,
        334 => 16641,
        214 => 33025,
        138 => 1537,
        412 => 2561,
        457 => 4609,
        355 => 8705,
        55 => 16897,
        431 => 33281,
        279 => 3073,
        322 => 5121,
        488 => 9217,
        188 => 17409,
        292 => 33793,
        84 => 6145,
        254 => 10241,
        426 => 18433,
        50 => 34817,
        171 => 12289,
        511 => 20481,
        103 => 36865,
        341 => 24577,
        205 => 40961,
        409 => 49153,
        22 => 22,
        38 => 38,
        134 => 134,
        262 => 262,
        127 => 518,
        244 => 1030,
        482 => 2054,
        439 => 4102,
        285 => 8198,
        465 => 32774,
        42 => 42,
        494 => 2058,
        443 => 4106,
        477 => 32778,
        82 => 82,
        146 => 146,
        107 => 530,
        224 => 1042,
        419 => 4114,
        93 => 16402,
        98 => 98,
        162 => 162,
        290 => 290,
        91 => 546,
        208 => 1058,
        403 => 4130,
        313 => 8226,
        109 => 16418,
        194 => 194,
        59 => 578,
        422 => 2114,
        345 => 8258,
        405 => 32834,
        386 => 386,
        358 => 2178,
        307 => 4226,
        379 => 770,
        230 => 2306,
        333 => 16642,
        213 => 33026,
        415 => 2562,
        458 => 4610,
        352 => 8706,
        52 => 16898,
        428 => 33282,
        276 => 3074,
        491 => 9218,
        191 => 17410,
        295 => 33794,
        87 => 6146,
        253 => 10242,
        425 => 18434,
        168 => 12290,
        508 => 20482,
        100 => 36866,
        28 => 28,
        44 => 44,
        140 => 140,
        268 => 268,
        117 => 524,
        445 => 4108,
        475 => 32780,
        148 => 148,
        271 => 8212,
        451 => 32788,
        164 => 164,
        448 => 2084,
        319 => 8228,
        196 => 196,
        324 => 324,
        61 => 580,
        182 => 1092,
        351 => 8260,
        388 => 388,
        118 => 1156,
        309 => 4228,
        203 => 16516,
        339 => 32900,
        381 => 772,
        181 => 4356,
        31 => 8452,
        331 => 16644,
        143 => 1540,
        460 => 4612,
        327 => 5124,
        185 => 17412,
        174 => 12292,
        506 => 20484,
        336 => 24580,
        200 => 40964,
        152 => 152,
        234 => 1048,
        463 => 32792,
        296 => 296,
        218 => 1064,
        328 => 328,
        186 => 1096,
        505 => 4168,
        392 => 392,
        364 => 2184,
        199 => 16520,
        369 => 776,
        236 => 2312,
        223 => 33032,
        362 => 8712,
        62 => 16904,
        301 => 33800,
        348 => 24584,
        299 => 8240,
        391 => 32848,
        233 => 656,
        372 => 2192,
        395 => 8336,
        361 => 784,
        155 => 1552,
        397 => 2576,
        472 => 4624,
        370 => 8720,
        446 => 33296,
        173 => 17424,
        239 => 10256,
        220 => 40976,
        47 => 16480,
        217 => 672,
        375 => 32928,
        367 => 16672,
        398 => 33312,
        310 => 3104,
        157 => 17440,
        151 => 33088,
        302 => 33408,
        382 => 20608,
        167 => 7168,
        23 => 23,
        39 => 39,
        135 => 135,
        263 => 263,
        126 => 519,
        245 => 1031,
        483 => 2055,
        438 => 4103,
        284 => 8199,
        464 => 32775,
        43 => 43,
        495 => 2059,
        442 => 4107,
        476 => 32779,
        83 => 83,
        147 => 147,
        106 => 531,
        225 => 1043,
        418 => 4115,
        92 => 16403,
        99 => 99,
        163 => 163,
        291 => 291,
        90 => 547,
        209 => 1059,
        402 => 4131,
        312 => 8227,
        108 => 16419,
        195 => 195,
        58 => 579,
        423 => 2115,
        344 => 8259,
        404 => 32835,
        387 => 387,
        359 => 2179,
        306 => 4227,
        378 => 771,
        231 => 2307,
        332 => 16643,
        212 => 33027,
        414 => 2563,
        459 => 4611,
        353 => 8707,
        53 => 16899,
        429 => 33283,
        277 => 3075,
        490 => 9219,
        190 => 17411,
        294 => 33795,
        86 => 6147,
        252 => 10243,
        424 => 18435,
        169 => 12291,
        509 => 20483,
        101 => 36867,
        29 => 29,
        45 => 45,
        141 => 141,
        269 => 269,
        116 => 525,
        444 => 4109,
        474 => 32781,
        149 => 149,
        270 => 8213,
        450 => 32789,
        165 => 165,
        449 => 2085,
        318 => 8229,
        197 => 197,
        325 => 325,
        60 => 581,
        183 => 1093,
        350 => 8261,
        389 => 389,
        119 => 1157,
        308 => 4229,
        202 => 16517,
        338 => 32901,
        380 => 773,
        180 => 4357,
        30 => 8453,
        330 => 16645,
        142 => 1541,
        461 => 4613,
        326 => 5125,
        184 => 17413,
        175 => 12293,
        507 => 20485,
        337 => 24581,
        201 => 40965,
        153 => 153,
        235 => 1049,
        462 => 32793,
        297 => 297,
        219 => 1065,
        329 => 329,
        187 => 1097,
        504 => 4169,
        393 => 393,
        365 => 2185,
        198 => 16521,
        368 => 777,
        237 => 2313,
        222 => 33033,
        363 => 8713,
        63 => 16905,
        300 => 33801,
        349 => 24585,
        298 => 8241,
        390 => 32849,
        232 => 657,
        373 => 2193,
        394 => 8337,
        360 => 785,
        154 => 1553,
        396 => 2577,
        473 => 4625,
        371 => 8721,
        447 => 33297,
        172 => 17425,
        238 => 10257,
        221 => 40977,
        46 => 16481,
        216 => 673,
        374 => 32929,
        366 => 16673,
        399 => 33313,
        311 => 3105,
        156 => 17441,
        150 => 33089,
        303 => 33409,
        383 => 20609,
        166 => 7169,
        317 => 8230,
        159 => 17442,
        316 => 8231,
        158 => 17443,
        _ => 0,
    }
}

impl GuavaCode16_7 {
    /// Builds the matrices and the syndrome table of the code. Every
    /// other operation of this type builds them anew: where many words
    /// are decoded, build them once and decode with the code that this
    /// returns.
    pub fn tables(&self) -> (code: LinearCode)
        ensures
            code@ == model(),
    {
        let mut generator_rows: Vec<u64> = Vec::with_capacity(DIMENSION);
        let mut i: u64 = 0;
        while i < DIMENSION as u64
            invariant
                i <= DIMENSION,
                generator_rows@ == Seq::new(i as nat, |r: int| generator_word(r as u64)),
            decreases DIMENSION - i,
        {
            generator_rows.push(generator_word_of(i));
            i += 1;
            assert(generator_rows@ =~= Seq::new(i as nat, |r: int| generator_word(r as u64)));
        }
        let mut parity_rows: Vec<u64> = Vec::with_capacity(LENGTH - DIMENSION);
        let mut j: u64 = 0;
        while j < (LENGTH - DIMENSION) as u64
            invariant
                j <= LENGTH - DIMENSION,
                parity_rows@ == Seq::new(j as nat, |r: int| parity_word(r as u64)),
            decreases LENGTH - DIMENSION - j,
        {
            parity_rows.push(parity_word_of(j));
            j += 1;
            assert(parity_rows@ =~= Seq::new(j as nat, |r: int| parity_word(r as u64)));
        }
        let mut table = SyndromeMap::with_capacity(SYNDROMES as usize);
        let mut s: u64 = 0;
        while s < SYNDROMES
            invariant
                s <= SYNDROMES,
                table@ == Map::new(|t: u64| t < s, |t: u64| leader(t)),
            decreases SYNDROMES - s,
        {
            table.insert(s, leader_of(s));
            s += 1;
            assert(table@ =~= Map::new(|t: u64| t < s, |t: u64| leader(t)));
        }
        proof {
            lemma_words();
        }
        LinearCode::from_words(
            LENGTH,
            DIMENSION,
            generator_rows.as_slice(),
            parity_rows.as_slice(),
            table,
        )
    }

    /// The generator matrix: `DIMENSION` rows of `LENGTH` bits.
    pub fn generator_matrix(&self) -> (m: BinMatrix)
        ensures
            m@ == model().generator,
            m.spec_ncols() == LENGTH,
    {
        self.tables().generator_matrix()
    }

    /// The parity-check matrix: `LENGTH - DIMENSION` rows of `LENGTH`
    /// bits.
    pub fn parity_check_matrix(&self) -> (m: BinMatrix)
        ensures
            m@ == model().parity_check,
            m.spec_ncols() == LENGTH,
    {
        self.tables().parity_check_matrix()
    }

    /// Decodes in place a word of `LENGTH` bits that is packed into the
    /// first word of `words`: the error pattern is added to it, and the
    /// other words stay as they are. No bit may be set at position
    /// `LENGTH` or beyond.
    pub fn decode_slice(&self, words: &mut [u64])
        requires
            old(words)@.len() >= 1,
            fits(old(words)@[0], LENGTH as nat),
        ensures
            final(words)@.len() == old(words)@.len(),
            unpack(final(words)@[0], LENGTH as nat) == model().decode(
                unpack(old(words)@[0], LENGTH as nat),
            ),
            fits(final(words)@[0], LENGTH as nat),
            forall|i: int| 1 <= i < old(words)@.len() ==> final(words)@[i] == old(words)@[i],
    {
        self.tables().decode_slice(words);
    }
}

impl BinaryCode for GuavaCode16_7 {
    open spec fn spec_length(&self) -> nat {
        LENGTH as nat
    }

    open spec fn spec_dimension(&self) -> nat {
        DIMENSION as nat
    }

    open spec fn spec_encode(&self, message: Seq<bool>) -> Seq<bool> {
        model().encode(message)
    }

    open spec fn spec_decode(&self, received: Seq<bool>) -> Seq<bool> {
        model().decode(received)
    }

    open spec fn spec_message(&self, received: Seq<bool>) -> Seq<bool> {
        model().message(received)
    }

    fn name(&self) -> (name: String)
        ensures
            name@ == "[16, 7] Guava code"@,
    {
        "[16, 7] Guava code".to_string()
    }

    fn length(&self) -> (n: usize) {
        LENGTH
    }

    fn dimension(&self) -> (k: usize) {
        DIMENSION
    }

    fn encode(&self, message: &BinVector) -> (r: Result<BinVector, CodeError>) {
        self.tables().encode(message)
    }

    fn decode_to_code(&self, received: &BinVector) -> (r: Result<BinVector, CodeError>)
        ensures
            r matches Ok(codeword) ==> model().syndrome(codeword@) == zeros(model().redundancy()),
    {
        self.tables().decode_to_code(received)
    }

    fn decode_to_message(&self, received: &BinVector) -> (r: Result<BinVector, CodeError>) {
        self.tables().decode_to_message(received)
    }

    fn decode_sample(&self, sample: &mut Sample) -> (r: Result<(), CodeError>) {
        self.tables().decode_sample(sample)
    }
}

} // verus!
