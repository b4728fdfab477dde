//! Reduction factors of the tick to square-root-price conversion.
//!
//! A tick magnitude is read one binary digit at a time. Digit `bit`, when
//! set, multiplies the running 64.64 value by `1.0001^(-2^bit / 2)`. The
//! factors are stored rounded down, and every product is rounded down again,
//! so the tables below record what those roundings leave: enough to show
//! that neighbouring ticks never collapse onto one price.

use vstd::prelude::*;

verus! {

/// One, in 64.64 fixed point.
pub const Q64: u128 = 0x1_0000_0000_0000_0000;

/// How many binary digits of a tick magnitude the conversion reads.
pub const FACTOR_COUNT: u32 = 19;

/// `1.0001^(-2^bit / 2)` in 64.64 fixed point, rounded down.
pub open spec fn step_factor(bit: nat) -> nat {
    if bit == 0 {
        18445821805675392311
    } else if bit == 1 {
        18444899583751176498
    } else if bit == 2 {
        18443055278223354162
    } else if bit == 3 {
        18439367220385604838
    } else if bit == 4 {
        18431993317065449817
    } else if bit == 5 {
        18417254355718160513
    } else if bit == 6 {
        18387811781193591352
    } else if bit == 7 {
        18329067761203520168
    } else if bit == 8 {
        18212142134806087854
    } else if bit == 9 {
        17980523815641551639
    } else if bit == 10 {
        17526086738831147013
    } else if bit == 11 {
        16651378430235024244
    } else if bit == 12 {
        15030750278693429944
    } else if bit == 13 {
        12247334978882834399
    } else if bit == 14 {
        8131365268884726200
    } else if bit == 15 {
        3584323654723342297
    } else if bit == 16 {
        696457651847595233
    } else if bit == 17 {
        26294789957452057
    } else {
        37481735321082
    }
}

/// What is left of one after the factors below `bit` have all been applied,
/// lowest first.
pub closed spec fn lead(bit: nat) -> nat {
    if bit == 0 {
        18446744073709551616
    } else if bit == 1 {
        18445821805675392311
    } else if bit == 2 {
        18443977407934598850
    } else if bit == 3 {
        18440289165698567478
    } else if bit == 4 {
        18432914893692463368
    } else if bit == 5 {
        18418175195415529478
    } else if bit == 6 {
        18388731148799035466
    } else if bit == 7 {
        18329984191681391131
    } else if bit == 8 {
        18213052719148788671
    } else if bit == 9 {
        17981422819357802651
    } else if bit == 10 {
        17526963021261575450
    } else if bit == 11 {
        16652210978343353594
    } else if bit == 12 {
        15031501797419866121
    } else if bit == 13 {
        12247947330323375219
    } else if bit == 14 {
        8131771826984472022
    } else if bit == 15 {
        3584502866425897898
    } else if bit == 16 {
        696492473859659073
    } else if bit == 17 {
        26296104664083085
    } else if bit == 18 {
        37483609360998
    } else {
        76162531
    }
}

/// A distance between two running values at digit `bit` that leaves them at
/// least one unit apart after every remaining factor has been applied.
pub closed spec fn need(bit: nat) -> nat {
    if bit == 0 {
        242202408303
    } else if bit == 1 {
        242190299090
    } else if bit == 2 {
        242166082481
    } else if bit == 3 {
        242117656528
    } else if bit == 4 {
        242020833672
    } else if bit == 5 {
        241827304103
    } else if bit == 6 {
        241440709104
    } else if bit == 7 {
        240669372198
    } else if bit == 8 {
        239134083144
    } else if bit == 9 {
        236092824516
    } else if bit == 10 {
        230125849686
    } else if bit == 11 {
        218640513812
    } else if bit == 12 {
        197360895837
    } else if bit == 13 {
        160813329889
    } else if bit == 14 {
        106768691122
    } else if bit == 15 {
        47063873349
    } else if bit == 16 {
        9144820021
    } else if bit == 17 {
        345263091
    } else if bit == 18 {
        492153
    } else {
        1
    }
}

/// The ends of the two derived tables.
pub proof fn lemma_factor_table_ends()
    ensures
        lead(0) == Q64,
        need(0) <= Q64,
        need(19) == 1,
{
}

/// What one row of the tables claims, checked row by row.
pub proof fn lemma_factor_table_row(bit: nat)
    requires
        bit < 19,
    ensures
        0 < step_factor(bit) < Q64,
        lead(bit + 1) == lead(bit) * step_factor(bit) / (Q64 as nat),
        need(bit + 1) <= need(bit),
        need(bit + 1) * Q64 <= need(bit) * step_factor(bit),
        step_factor(bit) + need(bit + 1) <= lead(bit),
{
    if bit == 0 {
        assert(18446744073709551616nat * 18445821805675392311nat / 0x1_0000_0000_0000_0000nat == 18445821805675392311nat);
        assert(242190299090nat * 0x1_0000_0000_0000_0000nat <= 242202408303nat * 18445821805675392311nat);
    } else if bit == 1 {
        assert(18445821805675392311nat * 18444899583751176498nat / 0x1_0000_0000_0000_0000nat == 18443977407934598850nat);
        assert(242166082481nat * 0x1_0000_0000_0000_0000nat <= 242190299090nat * 18444899583751176498nat);
    } else if bit == 2 {
        assert(18443977407934598850nat * 18443055278223354162nat / 0x1_0000_0000_0000_0000nat == 18440289165698567478nat);
        assert(242117656528nat * 0x1_0000_0000_0000_0000nat <= 242166082481nat * 18443055278223354162nat);
    } else if bit == 3 {
        assert(18440289165698567478nat * 18439367220385604838nat / 0x1_0000_0000_0000_0000nat == 18432914893692463368nat);
        assert(242020833672nat * 0x1_0000_0000_0000_0000nat <= 242117656528nat * 18439367220385604838nat);
    } else if bit == 4 {
        assert(18432914893692463368nat * 18431993317065449817nat / 0x1_0000_0000_0000_0000nat == 18418175195415529478nat);
        assert(241827304103nat * 0x1_0000_0000_0000_0000nat <= 242020833672nat * 18431993317065449817nat);
    } else if bit == 5 {
        assert(18418175195415529478nat * 18417254355718160513nat / 0x1_0000_0000_0000_0000nat == 18388731148799035466nat);
        assert(241440709104nat * 0x1_0000_0000_0000_0000nat <= 241827304103nat * 18417254355718160513nat);
    } else if bit == 6 {
        assert(18388731148799035466nat * 18387811781193591352nat / 0x1_0000_0000_0000_0000nat == 18329984191681391131nat);
        assert(240669372198nat * 0x1_0000_0000_0000_0000nat <= 241440709104nat * 18387811781193591352nat);
    } else if bit == 7 {
        assert(18329984191681391131nat * 18329067761203520168nat / 0x1_0000_0000_0000_0000nat == 18213052719148788671nat);
        assert(239134083144nat * 0x1_0000_0000_0000_0000nat <= 240669372198nat * 18329067761203520168nat);
    } else if bit == 8 {
        assert(18213052719148788671nat * 18212142134806087854nat / 0x1_0000_0000_0000_0000nat == 17981422819357802651nat);
        assert(236092824516nat * 0x1_0000_0000_0000_0000nat <= 239134083144nat * 18212142134806087854nat);
    } else if bit == 9 {
        assert(17981422819357802651nat * 17980523815641551639nat / 0x1_0000_0000_0000_0000nat == 17526963021261575450nat);
        assert(230125849686nat * 0x1_0000_0000_0000_0000nat <= 236092824516nat * 17980523815641551639nat);
    } else if bit == 10 {
        assert(17526963021261575450nat * 17526086738831147013nat / 0x1_0000_0000_0000_0000nat == 16652210978343353594nat);
        assert(218640513812nat * 0x1_0000_0000_0000_0000nat <= 230125849686nat * 17526086738831147013nat);
    } else if bit == 11 {
        assert(16652210978343353594nat * 16651378430235024244nat / 0x1_0000_0000_0000_0000nat == 15031501797419866121nat);
        assert(197360895837nat * 0x1_0000_0000_0000_0000nat <= 218640513812nat * 16651378430235024244nat);
    } else if bit == 12 {
        assert(15031501797419866121nat * 15030750278693429944nat / 0x1_0000_0000_0000_0000nat == 12247947330323375219nat);
        assert(160813329889nat * 0x1_0000_0000_0000_0000nat <= 197360895837nat * 15030750278693429944nat);
    } else if bit == 13 {
        assert(12247947330323375219nat * 12247334978882834399nat / 0x1_0000_0000_0000_0000nat == 8131771826984472022nat);
        assert(106768691122nat * 0x1_0000_0000_0000_0000nat <= 160813329889nat * 12247334978882834399nat);
    } else if bit == 14 {
        assert(8131771826984472022nat * 8131365268884726200nat / 0x1_0000_0000_0000_0000nat == 3584502866425897898nat);
        assert(47063873349nat * 0x1_0000_0000_0000_0000nat <= 106768691122nat * 8131365268884726200nat);
    } else if bit == 15 {
        assert(3584502866425897898nat * 3584323654723342297nat / 0x1_0000_0000_0000_0000nat == 696492473859659073nat);
        assert(9144820021nat * 0x1_0000_0000_0000_0000nat <= 47063873349nat * 3584323654723342297nat);
    } else if bit == 16 {
        assert(696492473859659073nat * 696457651847595233nat / 0x1_0000_0000_0000_0000nat == 26296104664083085nat);
        assert(345263091nat * 0x1_0000_0000_0000_0000nat <= 9144820021nat * 696457651847595233nat);
    } else if bit == 17 {
        assert(26296104664083085nat * 26294789957452057nat / 0x1_0000_0000_0000_0000nat == 37483609360998nat);
        assert(492153nat * 0x1_0000_0000_0000_0000nat <= 345263091nat * 26294789957452057nat);
    } else if bit == 18 {
        assert(37483609360998nat * 37481735321082nat / 0x1_0000_0000_0000_0000nat == 76162531nat);
        assert(1nat * 0x1_0000_0000_0000_0000nat <= 492153nat * 37481735321082nat);
    }
}

/// Looks up the factor for one binary digit.
pub fn factor_at(bit: u32) -> (factor: u128)
    requires
        bit < FACTOR_COUNT,
    ensures
        factor == step_factor(bit as nat),
        0 < factor < Q64,
{
    if bit == 0 {
        18445821805675392311
    } else if bit == 1 {
        18444899583751176498
    } else if bit == 2 {
        18443055278223354162
    } else if bit == 3 {
        18439367220385604838
    } else if bit == 4 {
        18431993317065449817
    } else if bit == 5 {
        18417254355718160513
    } else if bit == 6 {
        18387811781193591352
    } else if bit == 7 {
        18329067761203520168
    } else if bit == 8 {
        18212142134806087854
    } else if bit == 9 {
        17980523815641551639
    } else if bit == 10 {
        17526086738831147013
    } else if bit == 11 {
        16651378430235024244
    } else if bit == 12 {
        15030750278693429944
    } else if bit == 13 {
        12247334978882834399
    } else if bit == 14 {
        8131365268884726200
    } else if bit == 15 {
        3584323654723342297
    } else if bit == 16 {
        696457651847595233
    } else if bit == 17 {
        26294789957452057
    } else {
        37481735321082
    }
}

} // verus!
