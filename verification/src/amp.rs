use vstd::prelude::*;

verus! {

/// One in the Q15 fixed-point amplitude scale: 32768 stands for a gain of 1.0.
pub const AMP_ONE: u32 = 32768;

/// The velocity amplitude curve. Full velocity (127) plays at unit gain, and
/// every velocity step below that scales the gain by 25/26, i.e. one step up
/// multiplies by 1.04 (about 0.5 dB per velocity step).
pub open spec fn amp_spec(vel: int) -> int
    decreases 127 - vel,
{
    if vel >= 127 {
        AMP_ONE as int
    } else {
        amp_spec(vel + 1) * 25 / 26
    }
}

/// The gain never goes below zero or above unit.
pub proof fn lemma_amp_bounds(vel: int)
    ensures
        0 <= amp_spec(vel) <= AMP_ONE,
    decreases 127 - vel,
{
    if vel < 127 {
        lemma_amp_bounds(vel + 1);
    }
}

/// Velocity amplitude law, unit part: full velocity plays at exactly unit gain.
pub proof fn lemma_amp_full_velocity()
    ensures
        amp_spec(127) == AMP_ONE,
{
}

/// Velocity amplitude law, monotone part: the gain never decreases as the
/// velocity increases.
pub proof fn lemma_amp_monotone(lo: int, hi: int)
    requires
        lo <= hi,
    ensures
        amp_spec(lo) <= amp_spec(hi),
    decreases hi - lo,
{
    if lo < hi {
        lemma_amp_monotone(lo + 1, hi);
        if lo >= 127 {
        } else {
            lemma_amp_bounds(lo + 1);
            assert(amp_spec(lo) == amp_spec(lo + 1) * 25 / 26);
            assert(amp_spec(lo + 1) * 25 <= amp_spec(lo + 1) * 26);
            assert(amp_spec(lo + 1) * 25 / 26 <= amp_spec(lo + 1) * 26 / 26);
        }
    }
}

/// Velocity amplitude law, floor part: velocity zero plays below a gain of
/// one hundredth.
#[verifier::rlimit(100)]
pub proof fn lemma_amp_silent_floor()
    ensures
        amp_spec(0) * 100 < AMP_ONE,
{
    assert(amp_spec(127) == 32768);
    assert(amp_spec(126) == 31507);
    assert(amp_spec(125) == 30295);
    assert(amp_spec(124) == 29129);
    assert(amp_spec(123) == 28008);
    assert(amp_spec(122) == 26930);
    assert(amp_spec(121) == 25894);
    assert(amp_spec(120) == 24898);
    assert(amp_spec(119) == 23940);
    assert(amp_spec(118) == 23019);
    assert(amp_spec(117) == 22133);
    assert(amp_spec(116) == 21281);
    assert(amp_spec(115) == 20462);
    assert(amp_spec(114) == 19675);
    assert(amp_spec(113) == 18918);
    assert(amp_spec(112) == 18190);
    assert(amp_spec(111) == 17490);
    assert(amp_spec(110) == 16817);
    assert(amp_spec(109) == 16170);
    assert(amp_spec(108) == 15548);
    assert(amp_spec(107) == 14950);
    assert(amp_spec(106) == 14375);
    assert(amp_spec(105) == 13822);
    assert(amp_spec(104) == 13290);
    assert(amp_spec(103) == 12778);
    assert(amp_spec(102) == 12286);
    assert(amp_spec(101) == 11813);
    assert(amp_spec(100) == 11358);
    assert(amp_spec(99) == 10921);
    assert(amp_spec(98) == 10500);
    assert(amp_spec(97) == 10096);
    assert(amp_spec(96) == 9707);
    assert(amp_spec(95) == 9333);
    assert(amp_spec(94) == 8974);
    assert(amp_spec(93) == 8628);
    assert(amp_spec(92) == 8296);
    assert(amp_spec(91) == 7976);
    assert(amp_spec(90) == 7669);
    assert(amp_spec(89) == 7374);
    assert(amp_spec(88) == 7090);
    assert(amp_spec(87) == 6817);
    assert(amp_spec(86) == 6554);
    assert(amp_spec(85) == 6301);
    assert(amp_spec(84) == 6058);
    assert(amp_spec(83) == 5825);
    assert(amp_spec(82) == 5600);
    assert(amp_spec(81) == 5384);
    assert(amp_spec(80) == 5176);
    assert(amp_spec(79) == 4976);
    assert(amp_spec(78) == 4784);
    assert(amp_spec(77) == 4600);
    assert(amp_spec(76) == 4423);
    assert(amp_spec(75) == 4252);
    assert(amp_spec(74) == 4088);
    assert(amp_spec(73) == 3930);
    assert(amp_spec(72) == 3778);
    assert(amp_spec(71) == 3632);
    assert(amp_spec(70) == 3492);
    assert(amp_spec(69) == 3357);
    assert(amp_spec(68) == 3227);
    assert(amp_spec(67) == 3102);
    assert(amp_spec(66) == 2982);
    assert(amp_spec(65) == 2867);
    assert(amp_spec(64) == 2756);
    assert(amp_spec(63) == 2650);
    assert(amp_spec(62) == 2548);
    assert(amp_spec(61) == 2450);
    assert(amp_spec(60) == 2355);
    assert(amp_spec(59) == 2264);
    assert(amp_spec(58) == 2176);
    assert(amp_spec(57) == 2092);
    assert(amp_spec(56) == 2011);
    assert(amp_spec(55) == 1933);
    assert(amp_spec(54) == 1858);
    assert(amp_spec(53) == 1786);
    assert(amp_spec(52) == 1717);
    assert(amp_spec(51) == 1650);
    assert(amp_spec(50) == 1586);
    assert(amp_spec(49) == 1525);
    assert(amp_spec(48) == 1466);
    assert(amp_spec(47) == 1409);
    assert(amp_spec(46) == 1354);
    assert(amp_spec(45) == 1301);
    assert(amp_spec(44) == 1250);
    assert(amp_spec(43) == 1201);
    assert(amp_spec(42) == 1154);
    assert(amp_spec(41) == 1109);
    assert(amp_spec(40) == 1066);
    assert(amp_spec(39) == 1025);
    assert(amp_spec(38) == 985);
    assert(amp_spec(37) == 947);
    assert(amp_spec(36) == 910);
    assert(amp_spec(35) == 875);
    assert(amp_spec(34) == 841);
    assert(amp_spec(33) == 808);
    assert(amp_spec(32) == 776);
    assert(amp_spec(31) == 746);
    assert(amp_spec(30) == 717);
    assert(amp_spec(29) == 689);
    assert(amp_spec(28) == 662);
    assert(amp_spec(27) == 636);
    assert(amp_spec(26) == 611);
    assert(amp_spec(25) == 587);
    assert(amp_spec(24) == 564);
    assert(amp_spec(23) == 542);
    assert(amp_spec(22) == 521);
    assert(amp_spec(21) == 500);
    assert(amp_spec(20) == 480);
    assert(amp_spec(19) == 461);
    assert(amp_spec(18) == 443);
    assert(amp_spec(17) == 425);
    assert(amp_spec(16) == 408);
    assert(amp_spec(15) == 392);
    assert(amp_spec(14) == 376);
    assert(amp_spec(13) == 361);
    assert(amp_spec(12) == 347);
    assert(amp_spec(11) == 333);
    assert(amp_spec(10) == 320);
    assert(amp_spec(9) == 307);
    assert(amp_spec(8) == 295);
    assert(amp_spec(7) == 283);
    assert(amp_spec(6) == 272);
    assert(amp_spec(5) == 261);
    assert(amp_spec(4) == 250);
    assert(amp_spec(3) == 240);
    assert(amp_spec(2) == 230);
    assert(amp_spec(1) == 221);
    assert(amp_spec(0) == 212);
}

/// Gain baked into a voice at spawn time for the note-on velocity.
pub fn amp_from_velocity(vel: u8) -> (amp: u32)
    ensures
        amp == amp_spec(vel as int),
        amp <= AMP_ONE,
{
    let mut v: u8 = 127;
    let mut amp: u32 = AMP_ONE;
    while v > vel
        invariant
            v <= 127,
            vel < 127 ==> v >= vel,
            vel >= 127 ==> v == 127,
            amp == amp_spec(v as int),
            amp <= AMP_ONE,
        decreases v,
    {
        proof {
            lemma_amp_bounds(v as int);
        }
        amp = amp * 25 / 26;
        v = v - 1;
    }
    amp
}

} // verus!
