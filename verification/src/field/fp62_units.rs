//! Every nonzero element of the 62-bit field has an inverse.
//!
//! The residue `3` has the order `M - 1`: raised to `M - 1` it is one, and raised to
//! `(M - 1) / s` it is not, for each of the primes `s` that divide
//! `M - 1 = 2^39 * 13 * 17 * 37957`. So its powers are all the nonzero
//! residues. The powers that show this are reached by squaring and multiplying,
//! one step after the other, and are listed here with the steps.

use vstd::prelude::*;
use vstd::arithmetic::div_mod::lemma_fundamental_div_mod_converse;
use vstd::arithmetic::power::lemma_pow_positive;
use vstd::arithmetic::power2::{pow2, lemma_pow2, lemma2_to64, lemma2_to64_rest};
use crate::field::modular::{fpow, is_unit};
use crate::field::number_theory::{
    divides, is_prime, is_order, lemma_all_units, lemma_euclid, lemma_fpow_mul, lemma_full_order,
    lemma_power_first, lemma_power_square, lemma_power_square_times, lemma_prime_by_trial,
    lemma_prime_divides_power_of_two, lemma_prime_divides_prime, lemma_units_make_prime,
};
use crate::field::roots::lemma_fp62_root_squares;
use crate::field::fp62::{G, M};

verus! {

/// The residue whose powers are all the nonzero residues.
pub const GENERATOR: u64 = 3;

/// The odd part of `M - 1`.
pub const ODD_PART: u64 = 8388497;

/// `GENERATOR` raised to `2^39`.
pub const TWO_POWER: u64 = 2792272854755641730;

/// No number from two up to the square root of `13` divides it.
proof fn lemma_trial_13(c: u32)
    requires
        2 <= c < 4,
    ensures
        13u32 % c != 0,
{
    assert(2 <= c && c < 4 ==> 13u32 % c != 0) by (bit_vector);
}

/// `13` is a prime.
pub proof fn lemma_prime_13()
    ensures
        is_prime(13),
{
    assert forall|c: int| 2 <= c < 4 implies !#[trigger] divides(c, 13) by {
        lemma_trial_13(c as u32);
    }
    lemma_prime_by_trial(13, 4);
}

/// No number from two up to the square root of `17` divides it.
proof fn lemma_trial_17(c: u32)
    requires
        2 <= c < 5,
    ensures
        17u32 % c != 0,
{
    assert(2 <= c && c < 5 ==> 17u32 % c != 0) by (bit_vector);
}

/// `17` is a prime.
pub proof fn lemma_prime_17()
    ensures
        is_prime(17),
{
    assert forall|c: int| 2 <= c < 5 implies !#[trigger] divides(c, 17) by {
        lemma_trial_17(c as u32);
    }
    lemma_prime_by_trial(17, 5);
}

/// No number from two up to the square root of `37957` divides it.
proof fn lemma_trial_37957(c: u32)
    requires
        2 <= c < 195,
    ensures
        37957u32 % c != 0,
{
    assert(2 <= c && c < 195 ==> 37957u32 % c != 0) by (bit_vector);
}

/// `37957` is a prime.
pub proof fn lemma_prime_37957()
    ensures
        is_prime(37957),
{
    assert forall|c: int| 2 <= c < 195 implies !#[trigger] divides(c, 37957) by {
        lemma_trial_37957(c as u32);
    }
    lemma_prime_by_trial(37957, 195);
}

/// `GENERATOR` raised to `2^39`, by 39 squarings.
#[verifier::rlimit(100)]
proof fn lemma_two_power()
    ensures
        fpow(GENERATOR as int, 549755813888, M as int) == TWO_POWER,
{
    let p = M as int;
    lemma_power_first(3, p);
    lemma_power_square(3, p, 1, 3, 9);
    lemma_power_square(3, p, 2, 9, 81);
    lemma_power_square(3, p, 4, 81, 6561);
    lemma_power_square(3, p, 8, 6561, 43046721);
    lemma_power_square(3, p, 16, 43046721, 1853020188851841);
    lemma_power_square(3, p, 32, 1853020188851841, 73497813032741135);
    lemma_power_square(3, p, 64, 73497813032741135, 1377126847627860043);
    lemma_power_square(3, p, 128, 1377126847627860043, 3835500710327237006);
    lemma_power_square(3, p, 256, 3835500710327237006, 4225188320588331018);
    lemma_power_square(3, p, 512, 4225188320588331018, 1615853346435171034);
    lemma_power_square(3, p, 1024, 1615853346435171034, 1027433100007749363);
    lemma_power_square(3, p, 2048, 1027433100007749363, 4565426898363333856);
    lemma_power_square(3, p, 4096, 4565426898363333856, 1496931442362775555);
    lemma_power_square(3, p, 8192, 1496931442362775555, 3264171984973581376);
    lemma_power_square(3, p, 16384, 3264171984973581376, 3237216750216372892);
    lemma_power_square(3, p, 32768, 3237216750216372892, 3053396818127986095);
    lemma_power_square(3, p, 65536, 3053396818127986095, 3089270090049473787);
    lemma_power_square(3, p, 131072, 3089270090049473787, 1543205651998173198);
    lemma_power_square(3, p, 262144, 1543205651998173198, 4044417204832275743);
    lemma_power_square(3, p, 524288, 4044417204832275743, 432887062997725869);
    lemma_power_square(3, p, 1048576, 432887062997725869, 380448558039708203);
    lemma_power_square(3, p, 2097152, 380448558039708203, 1555329682472902808);
    lemma_power_square(3, p, 4194304, 1555329682472902808, 4448199718914849226);
    lemma_power_square(3, p, 8388608, 4448199718914849226, 2794067845741771682);
    lemma_power_square(3, p, 16777216, 2794067845741771682, 217014675637694247);
    lemma_power_square(3, p, 33554432, 217014675637694247, 4450188974221048097);
    lemma_power_square(3, p, 67108864, 4450188974221048097, 3098132045719267911);
    lemma_power_square(3, p, 134217728, 3098132045719267911, 715109489411676950);
    lemma_power_square(3, p, 268435456, 715109489411676950, 3523824945154583800);
    lemma_power_square(3, p, 536870912, 3523824945154583800, 3436012148969110184);
    lemma_power_square(3, p, 1073741824, 3436012148969110184, 2310572875828551989);
    lemma_power_square(3, p, 2147483648, 2310572875828551989, 3161476113938205884);
    lemma_power_square(3, p, 4294967296, 3161476113938205884, 4556538654522235714);
    lemma_power_square(3, p, 8589934592, 4556538654522235714, 4068892761080706018);
    lemma_power_square(3, p, 17179869184, 4068892761080706018, 2689999561608227693);
    lemma_power_square(3, p, 34359738368, 2689999561608227693, 2456651963771176158);
    lemma_power_square(3, p, 68719476736, 2456651963771176158, 1906552671898803858);
    lemma_power_square(3, p, 137438953472, 1906552671898803858, 4086944220549982168);
    lemma_power_square(3, p, 274877906944, 4086944220549982168, 2792272854755641730);
}

#[verifier::rlimit(60)]
proof fn lemma_generator_to_root_part_1()
    requires
        fpow(GENERATOR as int, 1, M as int) == 3,
    ensures
        fpow(GENERATOR as int, 131070, M as int) == 3417668895915750201,
{
    let p = M as int;
    lemma_power_square_times(3, p, 1, 3, 9, 27);
    lemma_power_square_times(3, p, 3, 27, 729, 2187);
    lemma_power_square_times(3, p, 7, 2187, 4782969, 14348907);
    lemma_power_square_times(3, p, 15, 14348907, 205891132094649, 617673396283947);
    lemma_power_square_times(3, p, 31, 617673396283947, 2570180310076996980, 3098915934698944603);
    lemma_power_square_times(3, p, 63, 3098915934698944603, 665416871462211820, 1996250614386635460);
    lemma_power_square_times(3, p, 127, 1996250614386635460, 4525388963842623078, 4352916900463776560);
    lemma_power_square_times(3, p, 255, 4352916900463776560, 469465368954259002, 1408396106862777006);
    lemma_power_square_times(3, p, 511, 1408396106862777006, 3766358701684388377, 2075826113989072457);
    lemma_power_square_times(3, p, 1023, 2075826113989072457, 3188575897022225265, 342477700002583121);
    lemma_power_square_times(3, p, 2047, 342477700002583121, 4094089096343073135, 3059017297965126731);
    lemma_power_square_times(3, p, 4095, 3059017297965126731, 3753145156787455546, 2036185479298273964);
    lemma_power_square_times(3, p, 8191, 2036185479298273964, 2412296885233529636, 2625265660168542571);
    lemma_power_square_times(3, p, 16383, 2625265660168542571, 2409301859149395360, 2616280581916139743);
    lemma_power_square_times(3, p, 32767, 2616280581916139743, 1876474644969347234, 1017798939375995365);
    lemma_power_square(3, p, 65535, 1017798939375995365, 3417668895915750201);
}

#[verifier::rlimit(60)]
proof fn lemma_generator_to_root_part_2()
    requires
        fpow(GENERATOR as int, 131070, M as int) == 3417668895915750201,
    ensures
        fpow(GENERATOR as int, 8388497, M as int) == 4421547261963328785,
{
    let p = M as int;
    lemma_power_square(3, p, 131070, 3417668895915750201, 3947473214119868771);
    lemma_power_square_times(3, p, 262140, 3947473214119868771, 373145201163971473, 1119435603491914419);
    lemma_power_square(3, p, 524281, 1119435603491914419, 527999382405642942);
    lemma_power_square(3, p, 1048562, 527999382405642942, 4390847137697699645);
    lemma_power_square(3, p, 2097124, 4390847137697699645, 1004588929312366163);
    lemma_power_square_times(3, p, 4194248, 1004588929312366163, 1473849087321109595, 4421547261963328785);
}

/// `GENERATOR` raised to the odd part of `M - 1` is the root of unity `G`.
proof fn lemma_generator_to_root()
    ensures
        fpow(GENERATOR as int, 8388497, M as int) == 4421547261963328785,
{
    lemma_power_first(GENERATOR as int, M as int);
    lemma_generator_to_root_part_1();
    lemma_generator_to_root_part_2();
}

#[verifier::rlimit(60)]
proof fn lemma_power_without_13_part_1()
    requires
        fpow(TWO_POWER as int, 1, M as int) == 2792272854755641730,
    ensures
        fpow(TWO_POWER as int, 80658, M as int) == 867915503086675597,
{
    let p = M as int;
    lemma_power_square(2792272854755641730, p, 1, 2792272854755641730, 73839190471551578);
    lemma_power_square(2792272854755641730, p, 2, 73839190471551578, 47436871064141242);
    lemma_power_square_times(2792272854755641730, p, 4, 47436871064141242, 2736332609838402565, 3811184043819157436);
    lemma_power_square_times(2792272854755641730, p, 9, 3811184043819157436, 4202630771568256055, 2723133785750852740);
    lemma_power_square_times(2792272854755641730, p, 19, 2723133785750852740, 3731218563499871338, 2250388173702802217);
    lemma_power_square(2792272854755641730, p, 39, 2250388173702802217, 1625279868096066491);
    lemma_power_square_times(2792272854755641730, p, 78, 1625279868096066491, 1308722153911322215, 376108239004805680);
    lemma_power_square_times(2792272854755641730, p, 157, 376108239004805680, 3579376677076011393, 3195073568115133574);
    lemma_power_square(2792272854755641730, p, 315, 3195073568115133574, 1142014491333315784);
    lemma_power_square(2792272854755641730, p, 630, 1142014491333315784, 965518972414385630);
    lemma_power_square(2792272854755641730, p, 1260, 965518972414385630, 868854310474347396);
    lemma_power_square_times(2792272854755641730, p, 2520, 868854310474347396, 1586258480535692323, 3049991291127249505);
    lemma_power_square(2792272854755641730, p, 5041, 3049991291127249505, 4377572105759680235);
    lemma_power_square(2792272854755641730, p, 10082, 4377572105759680235, 3441970894077234316);
    lemma_power_square_times(2792272854755641730, p, 20164, 3441970894077234316, 1081744783530346845, 3260204337073606306);
    lemma_power_square(2792272854755641730, p, 40329, 3260204337073606306, 867915503086675597);
}

#[verifier::rlimit(60)]
proof fn lemma_power_without_13_part_2()
    requires
        fpow(TWO_POWER as int, 80658, M as int) == 867915503086675597,
    ensures
        fpow(TWO_POWER as int, 645269, M as int) == 3244611489657417930,
{
    let p = M as int;
    lemma_power_square_times(2792272854755641730, p, 80658, 867915503086675597, 2307072198278751601, 2841000622826786244);
    lemma_power_square(2792272854755641730, p, 161317, 2841000622826786244, 1442661814894590812);
    lemma_power_square_times(2792272854755641730, p, 322634, 1442661814894590812, 350491804220773656, 3244611489657417930);
}

/// `TWO_POWER` raised to the odd part of `M - 1` without its factor `13`.
proof fn lemma_power_without_13()
    ensures
        fpow(TWO_POWER as int, 645269, M as int) == 3244611489657417930,
{
    lemma_power_first(TWO_POWER as int, M as int);
    lemma_power_without_13_part_1();
    lemma_power_without_13_part_2();
}

#[verifier::rlimit(60)]
proof fn lemma_power_without_17_part_1()
    requires
        fpow(TWO_POWER as int, 1, M as int) == 2792272854755641730,
    ensures
        fpow(TWO_POWER as int, 123360, M as int) == 3510229648297573042,
{
    let p = M as int;
    lemma_power_square_times(2792272854755641730, p, 1, 2792272854755641730, 73839190471551578, 3043483118098974364);
    lemma_power_square_times(2792272854755641730, p, 3, 3043483118098974364, 4236328412476866624, 3180878655780506831);
    lemma_power_square_times(2792272854755641730, p, 7, 3180878655780506831, 1383798304320119628, 2214395547410200469);
    lemma_power_square(2792272854755641730, p, 15, 2214395547410200469, 4028485839149888054);
    lemma_power_square(2792272854755641730, p, 30, 4028485839149888054, 2222864524921536025);
    lemma_power_square(2792272854755641730, p, 60, 2222864524921536025, 3222656250881023357);
    lemma_power_square(2792272854755641730, p, 120, 3222656250881023357, 4579953828324743610);
    lemma_power_square_times(2792272854755641730, p, 240, 4579953828324743610, 3028220688805270826, 2534944160439368908);
    lemma_power_square_times(2792272854755641730, p, 481, 2534944160439368908, 2459321220123349106, 838661444629406004);
    lemma_power_square_times(2792272854755641730, p, 963, 838661444629406004, 3242566848117764489, 2014959138376722226);
    lemma_power_square_times(2792272854755641730, p, 1927, 2014959138376722226, 3090551502470666641, 1799071308734296085);
    lemma_power_square(2792272854755641730, p, 3855, 1799071308734296085, 4555764757112585061);
    lemma_power_square(2792272854755641730, p, 7710, 4555764757112585061, 2589903519141421999);
    lemma_power_square(2792272854755641730, p, 15420, 2589903519141421999, 1274897512692767192);
    lemma_power_square(2792272854755641730, p, 30840, 1274897512692767192, 2650331462978902512);
    lemma_power_square(2792272854755641730, p, 61680, 2650331462978902512, 3510229648297573042);
}

#[verifier::rlimit(60)]
proof fn lemma_power_without_17_part_2()
    requires
        fpow(TWO_POWER as int, 123360, M as int) == 3510229648297573042,
    ensures
        fpow(TWO_POWER as int, 493441, M as int) == 1695886281326490231,
{
    let p = M as int;
    lemma_power_square(2792272854755641730, p, 123360, 3510229648297573042, 3910353984721685587);
    lemma_power_square_times(2792272854755641730, p, 246720, 3910353984721685587, 1743870584250127398, 1695886281326490231);
}

/// `TWO_POWER` raised to the odd part of `M - 1` without its factor `17`.
proof fn lemma_power_without_17()
    ensures
        fpow(TWO_POWER as int, 493441, M as int) == 1695886281326490231,
{
    lemma_power_first(TWO_POWER as int, M as int);
    lemma_power_without_17_part_1();
    lemma_power_without_17_part_2();
}

#[verifier::rlimit(60)]
proof fn lemma_power_without_37957_steps()
    requires
        fpow(TWO_POWER as int, 1, M as int) == 2792272854755641730,
    ensures
        fpow(TWO_POWER as int, 221, M as int) == 1928129925606303536,
{
    let p = M as int;
    lemma_power_square_times(2792272854755641730, p, 1, 2792272854755641730, 73839190471551578, 3043483118098974364);
    lemma_power_square(2792272854755641730, p, 3, 3043483118098974364, 4236328412476866624);
    lemma_power_square_times(2792272854755641730, p, 6, 4236328412476866624, 44767087856320424, 3279466051523308815);
    lemma_power_square_times(2792272854755641730, p, 13, 3279466051523308815, 2090032378710515598, 2603138311849393358);
    lemma_power_square_times(2792272854755641730, p, 27, 2603138311849393358, 4182907037363084639, 4254390825542256167);
    lemma_power_square(2792272854755641730, p, 55, 4254390825542256167, 4521678529931879836);
    lemma_power_square_times(2792272854755641730, p, 110, 4521678529931879836, 1413844892203564578, 1928129925606303536);
}

/// `TWO_POWER` raised to the odd part of `M - 1` without its factor `37957`.
proof fn lemma_power_without_37957()
    ensures
        fpow(TWO_POWER as int, 221, M as int) == 1928129925606303536,
{
    lemma_power_first(TWO_POWER as int, M as int);
    lemma_power_without_37957_steps();
}

/// `M - 1` is `2^39` times the odd primes `13, 17, 37957`.
proof fn lemma_factors()
    ensures
        M - 1 == pow2(39) * ODD_PART,
        ODD_PART == 13 * 17 * 37957,
        pow2(39) == 549755813888,
        pow2(38) == 274877906944,
{
    lemma2_to64();
    lemma2_to64_rest();
}

/// A prime that divides `M - 1` is two or one of its odd prime factors.
proof fn lemma_prime_factors(s: int)
    requires
        is_prime(s),
        divides(s, M - 1),
    ensures
        s == 2 || s == 13 || s == 17 || s == 37957,
{
    lemma_factors();
    lemma_pow2(39);
    lemma_pow_positive(2, 39);
    lemma_euclid(s, pow2(39) as int, ODD_PART as int);
    if divides(s, pow2(39) as int) {
        lemma_prime_divides_power_of_two(s, 39);
    } else {
        assert(13 * 645269 == 8388497);
        lemma_euclid(s, 13, 645269);
        if divides(s, 13) {
            lemma_prime_13();
            lemma_prime_divides_prime(s, 13);
        } else {
            assert(17 * 37957 == 645269);
            lemma_euclid(s, 17, 37957);
            if divides(s, 17) {
                lemma_prime_17();
                lemma_prime_divides_prime(s, 17);
            } else {
                lemma_prime_37957();
                lemma_prime_divides_prime(s, 37957);
            }
        }
    }
}

/// `GENERATOR` has the order `M - 1`.
pub proof fn lemma_generator_order()
    ensures
        is_order(GENERATOR as int, (M - 1) as nat, M as int),
{
    let g = GENERATOR as int;
    let p = M as int;
    let n = (M - 1) as nat;
    lemma_factors();
    lemma_two_power();
    lemma_generator_to_root();
    lemma_fp62_root_squares();
    lemma2_to64();
    lemma2_to64_rest();
    // g^(M - 1) == G^(2^39) == (G^(2^38))^2 == 1
    lemma_fpow_mul(g, ODD_PART as nat, 274877906944, p);
    lemma_fpow_mul(g, ODD_PART as nat, 549755813888, p);
    lemma_fpow_mul(G as int, 274877906944, 2, p);
    assert(ODD_PART * 274877906944 == 2305812497766023168);
    assert(ODD_PART * 549755813888 == M - 1);
    assert(274877906944nat * 2 == 549755813888);
    assert(fpow(G as int, 274877906944, p) == M - 1);
    assert(fpow(g, 2305812497766023168, p) == M - 1);
    assert(fpow(g, n, p) == 1) by {
        lemma_power_first(M - 1, p);
        lemma_power_square(M - 1, p, 1, M - 1, 1);
    }
    assert forall|s: int| is_prime(s) && #[trigger] divides(s, n as int) implies fpow(
        g,
        (n as int / s) as nat,
        p,
    ) != 1 by {
        lemma_prime_factors(s);
        if s == 2 {
            lemma_fundamental_div_mod_converse(n as int, 2, 2305812497766023168, 0);
        }
        if s == 13 {
            lemma_fundamental_div_mod_converse(n as int, 13, 354740384271695872, 0);
            lemma_power_without_13();
            lemma_fpow_mul(g, 549755813888, 645269, p);
            assert(549755813888nat * 645269 == 354740384271695872);
        }
        if s == 17 {
            lemma_fundamental_div_mod_converse(n as int, 17, 271272058560708608, 0);
            lemma_power_without_17();
            lemma_fpow_mul(g, 549755813888, 493441, p);
            assert(549755813888nat * 493441 == 271272058560708608);
        }
        if s == 37957 {
            lemma_fundamental_div_mod_converse(n as int, 37957, 121496034869248, 0);
            lemma_power_without_37957();
            lemma_fpow_mul(g, 549755813888, 221, p);
            assert(549755813888nat * 221 == 121496034869248);
        }
    }
    lemma_full_order(g, n, p);
}

#[verifier::rlimit(60)]
proof fn lemma_five_to_half_part_1()
    requires
        fpow(5, 1, M as int) == 5,
    ensures
        fpow(5, 131070, M as int) == 1367195153395053162,
{
    let p = M as int;
    lemma_power_square_times(5, p, 1, 5, 25, 125);
    lemma_power_square_times(5, p, 3, 125, 15625, 78125);
    lemma_power_square_times(5, p, 7, 78125, 6103515625, 30517578125);
    lemma_power_square_times(5, p, 15, 30517578125, 4385950513537201888, 3483252585557824092);
    lemma_power_square_times(5, p, 31, 3483252585557824092, 3697171270513356603, 39356370438597667);
    lemma_power_square_times(5, p, 63, 39356370438597667, 1445517152264023442, 2615960765788070873);
    lemma_power_square_times(5, p, 127, 2615960765788070873, 2502304630920806078, 3288273163539937716);
    lemma_power_square_times(5, p, 255, 3288273163539937716, 2246592300584340943, 2009711511857612041);
    lemma_power_square_times(5, p, 511, 2009711511857612041, 2527353396959782857, 3413516993734821611);
    lemma_power_square_times(5, p, 1023, 3413516993734821611, 4434840503203380407, 3727702533888716687);
    lemma_power_square_times(5, p, 2047, 3727702533888716687, 2720456683200562859, 4379033424938721621);
    lemma_power_square_times(5, p, 4095, 4379033424938721621, 2529416089790069793, 3423830457886256291);
    lemma_power_square_times(5, p, 8191, 3423830457886256291, 1762531836042950868, 4201034184682708003);
    lemma_power_square_times(5, p, 16383, 4201034184682708003, 2126368068742699660, 1408590352649405626);
    lemma_power_square_times(5, p, 32767, 1408590352649405626, 2792971285978303465, 129981443295378314);
    lemma_power_square(5, p, 65535, 129981443295378314, 1367195153395053162);
}

#[verifier::rlimit(60)]
proof fn lemma_five_to_half_part_2()
    requires
        fpow(5, 131070, M as int) == 1367195153395053162,
    ensures
        fpow(5, 8589820928, M as int) == 2588733617444739236,
{
    let p = M as int;
    lemma_power_square(5, p, 131070, 1367195153395053162, 1630243169981677115);
    lemma_power_square_times(5, p, 262140, 1630243169981677115, 1394058395426646536, 2358666981601186343);
    lemma_power_square(5, p, 524281, 2358666981601186343, 4558826543881273663);
    lemma_power_square(5, p, 1048562, 4558826543881273663, 3609403529987677588);
    lemma_power_square(5, p, 2097124, 3609403529987677588, 4295483176210306348);
    lemma_power_square_times(5, p, 4194248, 4295483176210306348, 3541745808885279820, 3873854057830260089);
    lemma_power_square(5, p, 8388497, 3873854057830260089, 2360718565934634739);
    lemma_power_square(5, p, 16776994, 2360718565934634739, 3218254286165316913);
    lemma_power_square(5, p, 33553988, 3218254286165316913, 4055503966439237714);
    lemma_power_square(5, p, 67107976, 4055503966439237714, 3752907571624803888);
    lemma_power_square(5, p, 134215952, 3752907571624803888, 3124608907684238078);
    lemma_power_square(5, p, 268431904, 3124608907684238078, 655687385756647049);
    lemma_power_square(5, p, 536863808, 655687385756647049, 202390562035400649);
    lemma_power_square(5, p, 1073727616, 202390562035400649, 2607120504215673150);
    lemma_power_square(5, p, 2147455232, 2607120504215673150, 759879612852450521);
    lemma_power_square(5, p, 4294910464, 759879612852450521, 2588733617444739236);
}

#[verifier::rlimit(60)]
proof fn lemma_five_to_half_part_3()
    requires
        fpow(5, 8589820928, M as int) == 2588733617444739236,
    ensures
        fpow(5, 562942504337408, M as int) == 2482523056550620672,
{
    let p = M as int;
    lemma_power_square(5, p, 8589820928, 2588733617444739236, 2766245270253797239);
    lemma_power_square(5, p, 17179641856, 2766245270253797239, 324867523771706183);
    lemma_power_square(5, p, 34359283712, 324867523771706183, 2578453044534763617);
    lemma_power_square(5, p, 68718567424, 2578453044534763617, 2402423506993734382);
    lemma_power_square(5, p, 137437134848, 2402423506993734382, 2112508630224149011);
    lemma_power_square(5, p, 274874269696, 2112508630224149011, 3534477980338994876);
    lemma_power_square(5, p, 549748539392, 3534477980338994876, 3699589799414403951);
    lemma_power_square(5, p, 1099497078784, 3699589799414403951, 1605996039559916549);
    lemma_power_square(5, p, 2198994157568, 1605996039559916549, 4243015891377056591);
    lemma_power_square(5, p, 4397988315136, 4243015891377056591, 3506162576781391963);
    lemma_power_square(5, p, 8795976630272, 3506162576781391963, 916577712049921083);
    lemma_power_square(5, p, 17591953260544, 916577712049921083, 2815899978756871998);
    lemma_power_square(5, p, 35183906521088, 2815899978756871998, 338303099188067943);
    lemma_power_square(5, p, 70367813042176, 338303099188067943, 592544561439131873);
    lemma_power_square(5, p, 140735626084352, 592544561439131873, 2899130259709000912);
    lemma_power_square(5, p, 281471252168704, 2899130259709000912, 2482523056550620672);
}

#[verifier::rlimit(60)]
proof fn lemma_five_to_half_part_4()
    requires
        fpow(5, 562942504337408, M as int) == 2482523056550620672,
    ensures
        fpow(5, 2305812497766023168, M as int) == 4611624995532046336,
{
    let p = M as int;
    lemma_power_square(5, p, 562942504337408, 2482523056550620672, 3938619430237659868);
    lemma_power_square(5, p, 1125885008674816, 3938619430237659868, 3885887374136049908);
    lemma_power_square(5, p, 2251770017349632, 3885887374136049908, 2904912064537257030);
    lemma_power_square(5, p, 4503540034699264, 2904912064537257030, 4152707334419284665);
    lemma_power_square(5, p, 9007080069398528, 4152707334419284665, 4343296780798107521);
    lemma_power_square(5, p, 18014160138797056, 4343296780798107521, 500803736715086644);
    lemma_power_square(5, p, 36028320277594112, 500803736715086644, 3836796305570199965);
    lemma_power_square(5, p, 72056640555188224, 3836796305570199965, 1914187396728977595);
    lemma_power_square(5, p, 144113281110376448, 1914187396728977595, 281986776422341414);
    lemma_power_square(5, p, 288226562220752896, 281986776422341414, 2697239244831102330);
    lemma_power_square(5, p, 576453124441505792, 2697239244831102330, 4590556052906267303);
    lemma_power_square(5, p, 1152906248883011584, 4590556052906267303, 4611624995532046336);
}

/// Five raised to half of `M - 1` is minus one: five is no square.
proof fn lemma_five_to_half()
    ensures
        fpow(5, 2305812497766023168, M as int) == 4611624995532046336,
{
    lemma_power_first(5, M as int);
    lemma_five_to_half_part_1();
    lemma_five_to_half_part_2();
    lemma_five_to_half_part_3();
    lemma_five_to_half_part_4();
}

/// Five is no square modulo `M`: raised to `(M - 1) / 2` it is minus one.
pub proof fn lemma_five_is_no_square()
    ensures
        fpow(5, ((M - 1) / 2) as nat, M as int) == M - 1,
{
    lemma_five_to_half();
}

/// Every nonzero residue modulo `M` has an inverse, and is taken to one by the
/// exponent `M - 1`.
pub proof fn lemma_units(x: int)
    requires
        0 < x < M,
    ensures
        is_unit(x, M as int),
        fpow(x, (M - 1) as nat, M as int) == 1,
{
    lemma_generator_order();
    lemma_all_units(GENERATOR as int, M as int, x);
}

/// `M` is a prime.
pub proof fn lemma_modulus_is_prime()
    ensures
        is_prime(M as int),
{
    assert forall|x: int| 0 < x < M implies #[trigger] is_unit(x, M as int) by {
        lemma_units(x);
    }
    lemma_units_make_prime(M as int);
}

} // verus!
