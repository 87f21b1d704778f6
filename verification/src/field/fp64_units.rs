//! Every nonzero element of the 64-bit field has an inverse.
//!
//! The residue `7` has the order `M - 1`: raised to `M - 1` it is one, and raised to
//! `(M - 1) / s` it is not, for each of the primes `s` that divide
//! `M - 1 = 2^32 * 3 * 5 * 17 * 257 * 65537`. So its powers are all the nonzero
//! residues. The powers that show this are reached by squaring and multiplying,
//! one step after the other, and are listed here with the steps.

use vstd::prelude::*;
use vstd::arithmetic::div_mod::lemma_fundamental_div_mod_converse;
use vstd::arithmetic::power::lemma_pow_positive;
use vstd::arithmetic::power2::{pow2, lemma_pow2, lemma2_to64, lemma2_to64_rest};
use crate::field::modular::{fpow, is_unit};
use crate::field::number_theory::{
    divides, is_prime, is_order, lemma_all_units, lemma_euclid, lemma_fpow_mul, lemma_full_order,
    lemma_power_first, lemma_power_square, lemma_power_square_times, lemma_prime_by_trial,
    lemma_prime_divides_power_of_two, lemma_prime_divides_prime, lemma_units_make_prime,
};
use crate::field::roots::lemma_fp64_root_squares;
use crate::field::fp64::{G, M};

verus! {

/// The residue whose powers are all the nonzero residues.
pub const GENERATOR: u64 = 7;

/// The odd part of `M - 1`.
pub const ODD_PART: u64 = 4294967295;

/// `GENERATOR` raised to `2^32`.
pub const TWO_POWER: u64 = 12275445934081160404;

/// No number from two up to the square root of `3` divides it.
proof fn lemma_trial_3(c: u32)
    requires
        2 <= c < 2,
    ensures
        3u32 % c != 0,
{
    assert(2 <= c && c < 2 ==> 3u32 % c != 0) by (bit_vector);
}

/// `3` is a prime.
pub proof fn lemma_prime_3()
    ensures
        is_prime(3),
{
    assert forall|c: int| 2 <= c < 2 implies !#[trigger] divides(c, 3) by {
        lemma_trial_3(c as u32);
    }
    lemma_prime_by_trial(3, 2);
}

/// No number from two up to the square root of `5` divides it.
proof fn lemma_trial_5(c: u32)
    requires
        2 <= c < 3,
    ensures
        5u32 % c != 0,
{
    assert(2 <= c && c < 3 ==> 5u32 % c != 0) by (bit_vector);
}

/// `5` is a prime.
pub proof fn lemma_prime_5()
    ensures
        is_prime(5),
{
    assert forall|c: int| 2 <= c < 3 implies !#[trigger] divides(c, 5) by {
        lemma_trial_5(c as u32);
    }
    lemma_prime_by_trial(5, 3);
}

/// No number from two up to the square root of `17` divides it.
proof fn lemma_trial_17(c: u32)
    requires
        2 <= c < 5,
    ensures
        17u32 % c != 0,
{
    assert(2 <= c && c < 5 ==> 17u32 % c != 0) by (bit_vector);
}

/// `17` is a prime.
pub proof fn lemma_prime_17()
    ensures
        is_prime(17),
{
    assert forall|c: int| 2 <= c < 5 implies !#[trigger] divides(c, 17) by {
        lemma_trial_17(c as u32);
    }
    lemma_prime_by_trial(17, 5);
}

/// No number from two up to the square root of `257` divides it.
proof fn lemma_trial_257(c: u32)
    requires
        2 <= c < 17,
    ensures
        257u32 % c != 0,
{
    assert(2 <= c && c < 17 ==> 257u32 % c != 0) by (bit_vector);
}

/// `257` is a prime.
pub proof fn lemma_prime_257()
    ensures
        is_prime(257),
{
    assert forall|c: int| 2 <= c < 17 implies !#[trigger] divides(c, 257) by {
        lemma_trial_257(c as u32);
    }
    lemma_prime_by_trial(257, 17);
}

/// No number from two up to the square root of `65537` divides it.
proof fn lemma_trial_65537(c: u32)
    requires
        2 <= c < 257,
    ensures
        65537u32 % c != 0,
{
    assert(2 <= c && c < 257 ==> 65537u32 % c != 0) by (bit_vector);
}

/// `65537` is a prime.
pub proof fn lemma_prime_65537()
    ensures
        is_prime(65537),
{
    assert forall|c: int| 2 <= c < 257 implies !#[trigger] divides(c, 65537) by {
        lemma_trial_65537(c as u32);
    }
    lemma_prime_by_trial(65537, 257);
}

/// `GENERATOR` raised to `2^32`, by 32 squarings.
#[verifier::rlimit(100)]
proof fn lemma_two_power()
    ensures
        fpow(GENERATOR as int, 4294967296, M as int) == TWO_POWER,
{
    let p = M as int;
    lemma_power_first(7, p);
    lemma_power_square(7, p, 1, 7, 49);
    lemma_power_square(7, p, 2, 49, 2401);
    lemma_power_square(7, p, 4, 2401, 5764801);
    lemma_power_square(7, p, 8, 5764801, 33232930569601);
    lemma_power_square(7, p, 16, 33232930569601, 3732854072722565977);
    lemma_power_square(7, p, 32, 3732854072722565977, 11250886851934520606);
    lemma_power_square(7, p, 64, 11250886851934520606, 12159723539389677939);
    lemma_power_square(7, p, 128, 12159723539389677939, 1536671775522476176);
    lemma_power_square(7, p, 256, 1536671775522476176, 18371408314118145657);
    lemma_power_square(7, p, 512, 18371408314118145657, 2431605942540367610);
    lemma_power_square(7, p, 1024, 2431605942540367610, 6358221588783459004);
    lemma_power_square(7, p, 2048, 6358221588783459004, 10083885515493449909);
    lemma_power_square(7, p, 4096, 10083885515493449909, 15094611910849701842);
    lemma_power_square(7, p, 8192, 15094611910849701842, 18060412910171584788);
    lemma_power_square(7, p, 16384, 18060412910171584788, 10529651373896570371);
    lemma_power_square(7, p, 32768, 10529651373896570371, 11156834669773791359);
    lemma_power_square(7, p, 65536, 11156834669773791359, 11840798296997857860);
    lemma_power_square(7, p, 131072, 11840798296997857860, 1447330804268045396);
    lemma_power_square(7, p, 262144, 1447330804268045396, 15265864706138236984);
    lemma_power_square(7, p, 524288, 15265864706138236984, 12990112920302977158);
    lemma_power_square(7, p, 1048576, 12990112920302977158, 16491641580159807679);
    lemma_power_square(7, p, 2097152, 16491641580159807679, 17642952523097762870);
    lemma_power_square(7, p, 4194304, 17642952523097762870, 4419967652436713981);
    lemma_power_square(7, p, 8388608, 4419967652436713981, 7206579306846404579);
    lemma_power_square(7, p, 16777216, 7206579306846404579, 17869454728573311546);
    lemma_power_square(7, p, 33554432, 17869454728573311546, 4919185416341570378);
    lemma_power_square(7, p, 67108864, 4919185416341570378, 14445320067108370181);
    lemma_power_square(7, p, 134217728, 14445320067108370181, 17666966662873528270);
    lemma_power_square(7, p, 268435456, 17666966662873528270, 5473358340599679662);
    lemma_power_square(7, p, 536870912, 5473358340599679662, 4120449531758749877);
    lemma_power_square(7, p, 1073741824, 4120449531758749877, 17380019310548783236);
    lemma_power_square(7, p, 2147483648, 17380019310548783236, 12275445934081160404);
}

#[verifier::rlimit(60)]
proof fn lemma_generator_to_root_part_1()
    requires
        fpow(GENERATOR as int, 1, M as int) == 7,
    ensures
        fpow(GENERATOR as int, 131071, M as int) == 4326791766630348883,
{
    let p = M as int;
    lemma_power_square_times(7, p, 1, 7, 49, 343);
    lemma_power_square_times(7, p, 3, 343, 117649, 823543);
    lemma_power_square_times(7, p, 7, 823543, 678223072849, 4747561509943);
    lemma_power_square_times(7, p, 15, 4747561509943, 1582037354089406189, 11074261478625843323);
    lemma_power_square_times(7, p, 31, 11074261478625843323, 14911712358349047125, 12148266161370408270);
    lemma_power_square_times(7, p, 63, 12148266161370408270, 14177331716484271384, 7007601668316978083);
    lemma_power_square_times(7, p, 127, 7007601668316978083, 1160753142525841411, 8125271997680889877);
    lemma_power_square_times(7, p, 255, 8125271997680889877, 10915923311382173605, 2624486902016877951);
    lemma_power_square_times(7, p, 511, 2624486902016877951, 1179017105118043277, 8253119735826302939);
    lemma_power_square_times(7, p, 1023, 8253119735826302939, 13682469552810377440, 3543566522599720475);
    lemma_power_square_times(7, p, 2047, 3543566522599720475, 12252646851770615269, 11981551684735969599);
    lemma_power_square_times(7, p, 4095, 11981551684735969599, 9343193256669382154, 10062120588441922115);
    lemma_power_square_times(7, p, 8191, 10062120588441922115, 4133221502128927102, 10485806445487905393);
    lemma_power_square_times(7, p, 16383, 10485806445487905393, 5861853314594190514, 4139485063330164956);
    lemma_power_square_times(7, p, 32767, 4139485063330164956, 7004045467739516513, 12134830135347446949);
    lemma_power_square_times(7, p, 65535, 12134830135347446949, 618113109518621269, 4326791766630348883);
}

#[verifier::rlimit(60)]
proof fn lemma_generator_to_root_part_2()
    requires
        fpow(GENERATOR as int, 131071, M as int) == 4326791766630348883,
    ensures
        fpow(GENERATOR as int, 4294967295, M as int) == 1753635133440165772,
{
    let p = M as int;
    lemma_power_square_times(7, p, 131071, 4326791766630348883, 13205783127219969319, 206761543466863628);
    lemma_power_square_times(7, p, 262143, 206761543466863628, 14617186517222294718, 10086585273483141421);
    lemma_power_square_times(7, p, 524287, 10086585273483141421, 5535602650859329748, 1855730417186139594);
    lemma_power_square_times(7, p, 1048575, 1855730417186139594, 3724741596018185032, 7626447102712710903);
    lemma_power_square_times(7, p, 2097151, 7626447102712710903, 11653985196031332500, 7790920094560990216);
    lemma_power_square_times(7, p, 4194303, 7790920094560990216, 16654626667483233145, 5901922255895126089);
    lemma_power_square_times(7, p, 8388607, 5901922255895126089, 9182212999444825067, 8935258787870022506);
    lemma_power_square_times(7, p, 16777215, 8935258787870022506, 17682034324931514088, 13093775858033092690);
    lemma_power_square_times(7, p, 33554431, 13093775858033092690, 9511995656157268947, 11243737384857129666);
    lemma_power_square_times(7, p, 67108863, 11243737384857129666, 16106297366990222687, 2063617152444052883);
    lemma_power_square_times(7, p, 134217727, 2063617152444052883, 4501656151559876649, 13064848991504552222);
    lemma_power_square_times(7, p, 268435455, 13064848991504552222, 2370486178716065012, 16593403251012455084);
    lemma_power_square_times(7, p, 536870911, 16593403251012455084, 14013264900002007546, 5859133952941131217);
    lemma_power_square_times(7, p, 1073741823, 5859133952941131217, 10142762553374040318, 15659105665374529263);
    lemma_power_square_times(7, p, 2147483647, 15659105665374529263, 16062014221418238814, 1753635133440165772);
}

/// `GENERATOR` raised to the odd part of `M - 1` is the root of unity `G`.
proof fn lemma_generator_to_root()
    ensures
        fpow(GENERATOR as int, 4294967295, M as int) == 1753635133440165772,
{
    lemma_power_first(GENERATOR as int, M as int);
    lemma_generator_to_root_part_1();
    lemma_generator_to_root_part_2();
}

#[verifier::rlimit(60)]
proof fn lemma_power_without_3_part_1()
    requires
        fpow(TWO_POWER as int, 1, M as int) == 12275445934081160404,
    ensures
        fpow(TWO_POWER as int, 87381, M as int) == 18342191855603989543,
{
    let p = M as int;
    lemma_power_square(12275445934081160404, p, 1, 12275445934081160404, 4756475762779100925);
    lemma_power_square_times(12275445934081160404, p, 2, 4756475762779100925, 8312008622371998338, 7781028390488215464);
    lemma_power_square(12275445934081160404, p, 5, 7781028390488215464, 16538725463549498621);
    lemma_power_square_times(12275445934081160404, p, 10, 16538725463549498621, 7240278926970958133, 8246665031048405574);
    lemma_power_square(12275445934081160404, p, 21, 8246665031048405574, 2750330294025098837);
    lemma_power_square_times(12275445934081160404, p, 42, 2750330294025098837, 15490647926983690299, 4733570987445959623);
    lemma_power_square(12275445934081160404, p, 85, 4733570987445959623, 10619881994662283040);
    lemma_power_square_times(12275445934081160404, p, 170, 10619881994662283040, 14683850830539800883, 18361179848640336464);
    lemma_power_square(12275445934081160404, p, 341, 18361179848640336464, 950055633415809085);
    lemma_power_square_times(12275445934081160404, p, 682, 950055633415809085, 2008868305916221889, 14539522463670894480);
    lemma_power_square(12275445934081160404, p, 1365, 14539522463670894480, 871452039643317218);
    lemma_power_square_times(12275445934081160404, p, 2730, 871452039643317218, 6918236945318845013, 11310299617345086484);
    lemma_power_square(12275445934081160404, p, 5461, 11310299617345086484, 15244413738397616579);
    lemma_power_square_times(12275445934081160404, p, 10922, 15244413738397616579, 13415808726118018742, 144820208228696286);
    lemma_power_square(12275445934081160404, p, 21845, 144820208228696286, 3684268560309858177);
    lemma_power_square_times(12275445934081160404, p, 43690, 3684268560309858177, 2363289453392170952, 18342191855603989543);
}

#[verifier::rlimit(60)]
proof fn lemma_power_without_3_part_2()
    requires
        fpow(TWO_POWER as int, 87381, M as int) == 18342191855603989543,
    ensures
        fpow(TWO_POWER as int, 1431655765, M as int) == 18446744065119617025,
{
    let p = M as int;
    lemma_power_square(12275445934081160404, p, 87381, 18342191855603989543, 14551972485095996566);
    lemma_power_square_times(12275445934081160404, p, 174762, 14551972485095996566, 858123293477080600, 16561037900262977897);
    lemma_power_square(12275445934081160404, p, 349525, 16561037900262977897, 12047248418557059035);
    lemma_power_square_times(12275445934081160404, p, 699050, 12047248418557059035, 4091240428172690146, 5709593261608934014);
    lemma_power_square(12275445934081160404, p, 1398101, 5709593261608934014, 2874022416960892837);
    lemma_power_square_times(12275445934081160404, p, 2796202, 2874022416960892837, 17140426604283717845, 7802345761617692924);
    lemma_power_square(12275445934081160404, p, 5592405, 7802345761617692924, 18222847149760681567);
    lemma_power_square_times(12275445934081160404, p, 11184810, 18222847149760681567, 17499387918775256010, 13093268643099712084);
    lemma_power_square(12275445934081160404, p, 22369621, 13093268643099712084, 14805989675903260522);
    lemma_power_square_times(12275445934081160404, p, 44739242, 14805989675903260522, 6114279652891903562, 6515397714927682743);
    lemma_power_square(12275445934081160404, p, 89478485, 6515397714927682743, 11178342284497030948);
    lemma_power_square_times(12275445934081160404, p, 178956970, 11178342284497030948, 7620522375449696705, 11368723234197765731);
    lemma_power_square(12275445934081160404, p, 357913941, 11368723234197765731, 4315988950561070367);
    lemma_power_square_times(12275445934081160404, p, 715827882, 4315988950561070367, 12705811026716418861, 18446744065119617025);
}

/// `TWO_POWER` raised to the odd part of `M - 1` without its factor `3`.
proof fn lemma_power_without_3()
    ensures
        fpow(TWO_POWER as int, 1431655765, M as int) == 18446744065119617025,
{
    lemma_power_first(TWO_POWER as int, M as int);
    lemma_power_without_3_part_1();
    lemma_power_without_3_part_2();
}

#[verifier::rlimit(60)]
proof fn lemma_power_without_5_part_1()
    requires
        fpow(TWO_POWER as int, 1, M as int) == 12275445934081160404,
    ensures
        fpow(TWO_POWER as int, 104857, M as int) == 10170028983955575304,
{
    let p = M as int;
    lemma_power_square_times(12275445934081160404, p, 1, 12275445934081160404, 4756475762779100925, 1279992132519201448);
    lemma_power_square(12275445934081160404, p, 3, 1279992132519201448, 11302600489504509467);
    lemma_power_square(12275445934081160404, p, 6, 11302600489504509467, 15099809066790865939);
    lemma_power_square_times(12275445934081160404, p, 12, 15099809066790865939, 14878451024585790464, 11395689535312925715);
    lemma_power_square_times(12275445934081160404, p, 25, 11395689535312925715, 1659512918415654813, 3080292546802250491);
    lemma_power_square(12275445934081160404, p, 51, 3080292546802250491, 17006525114682413860);
    lemma_power_square(12275445934081160404, p, 102, 17006525114682413860, 8083283331813898072);
    lemma_power_square_times(12275445934081160404, p, 204, 8083283331813898072, 16743901597616345696, 7481955408674006565);
    lemma_power_square_times(12275445934081160404, p, 409, 7481955408674006565, 8845957947426692066, 8229424189471531445);
    lemma_power_square(12275445934081160404, p, 819, 8229424189471531445, 11544158429850306753);
    lemma_power_square(12275445934081160404, p, 1638, 11544158429850306753, 6575894157890375372);
    lemma_power_square_times(12275445934081160404, p, 3276, 6575894157890375372, 14087742727050003168, 15468026419318992136);
    lemma_power_square_times(12275445934081160404, p, 6553, 15468026419318992136, 14043702205220635206, 13117622064007455443);
    lemma_power_square(12275445934081160404, p, 13107, 13117622064007455443, 9907097673348654079);
    lemma_power_square(12275445934081160404, p, 26214, 9907097673348654079, 6822962341432118346);
    lemma_power_square_times(12275445934081160404, p, 52428, 6822962341432118346, 8387774438723502474, 10170028983955575304);
}

#[verifier::rlimit(60)]
proof fn lemma_power_without_5_part_2()
    requires
        fpow(TWO_POWER as int, 104857, M as int) == 10170028983955575304,
    ensures
        fpow(TWO_POWER as int, 858993459, M as int) == 1373043270956696022,
{
    let p = M as int;
    lemma_power_square_times(12275445934081160404, p, 104857, 10170028983955575304, 11536242063402177297, 3714462262458937287);
    lemma_power_square(12275445934081160404, p, 209715, 3714462262458937287, 10207503010611174361);
    lemma_power_square(12275445934081160404, p, 419430, 10207503010611174361, 4650203334667317280);
    lemma_power_square_times(12275445934081160404, p, 838860, 4650203334667317280, 15783591772153663619, 7079038093298791840);
    lemma_power_square_times(12275445934081160404, p, 1677721, 7079038093298791840, 17472379961143050728, 750328663734657815);
    lemma_power_square(12275445934081160404, p, 3355443, 750328663734657815, 7983852518127489983);
    lemma_power_square(12275445934081160404, p, 6710886, 7983852518127489983, 3938614147066682552);
    lemma_power_square_times(12275445934081160404, p, 13421772, 3938614147066682552, 9599392867228085585, 17105565073236396267);
    lemma_power_square_times(12275445934081160404, p, 26843545, 17105565073236396267, 6231672803829649819, 7734626918933084012);
    lemma_power_square(12275445934081160404, p, 53687091, 7734626918933084012, 4412797120506850337);
    lemma_power_square(12275445934081160404, p, 107374182, 4412797120506850337, 3875766691360155617);
    lemma_power_square_times(12275445934081160404, p, 214748364, 3875766691360155617, 6241495314292722355, 17358023527338233849);
    lemma_power_square_times(12275445934081160404, p, 429496729, 17358023527338233849, 2893082935152309876, 1373043270956696022);
}

/// `TWO_POWER` raised to the odd part of `M - 1` without its factor `5`.
proof fn lemma_power_without_5()
    ensures
        fpow(TWO_POWER as int, 858993459, M as int) == 1373043270956696022,
{
    lemma_power_first(TWO_POWER as int, M as int);
    lemma_power_without_5_part_1();
    lemma_power_without_5_part_2();
}

#[verifier::rlimit(60)]
proof fn lemma_power_without_17_part_1()
    requires
        fpow(TWO_POWER as int, 1, M as int) == 12275445934081160404,
    ensures
        fpow(TWO_POWER as int, 123361, M as int) == 2173454143271796195,
{
    let p = M as int;
    lemma_power_square_times(12275445934081160404, p, 1, 12275445934081160404, 4756475762779100925, 1279992132519201448);
    lemma_power_square_times(12275445934081160404, p, 3, 1279992132519201448, 11302600489504509467, 4549350404001778198);
    lemma_power_square_times(12275445934081160404, p, 7, 4549350404001778198, 11016800570561344835, 11274872323250451096);
    lemma_power_square(12275445934081160404, p, 15, 11274872323250451096, 12069298394184580155);
    lemma_power_square(12275445934081160404, p, 30, 12069298394184580155, 5428282574489895836);
    lemma_power_square(12275445934081160404, p, 60, 5428282574489895836, 15488913980707339956);
    lemma_power_square(12275445934081160404, p, 120, 15488913980707339956, 14489374604437787495);
    lemma_power_square_times(12275445934081160404, p, 240, 14489374604437787495, 12206518770029942281, 17837368160142808105);
    lemma_power_square_times(12275445934081160404, p, 481, 17837368160142808105, 5743916551702962506, 12508716582751049819);
    lemma_power_square_times(12275445934081160404, p, 963, 12508716582751049819, 535259180718935157, 16600212635661691142);
    lemma_power_square_times(12275445934081160404, p, 1927, 16600212635661691142, 10943260163112079055, 17081009302073449373);
    lemma_power_square(12275445934081160404, p, 3855, 17081009302073449373, 9712290447447227715);
    lemma_power_square(12275445934081160404, p, 7710, 9712290447447227715, 18353052305479501654);
    lemma_power_square(12275445934081160404, p, 15420, 18353052305479501654, 3495479116764033220);
    lemma_power_square(12275445934081160404, p, 30840, 3495479116764033220, 3168539979805436219);
    lemma_power_square_times(12275445934081160404, p, 61680, 3168539979805436219, 3637221273663582256, 2173454143271796195);
}

#[verifier::rlimit(60)]
proof fn lemma_power_without_17_part_2()
    requires
        fpow(TWO_POWER as int, 123361, M as int) == 2173454143271796195,
    ensures
        fpow(TWO_POWER as int, 252645135, M as int) == 16301593560560007290,
{
    let p = M as int;
    lemma_power_square_times(12275445934081160404, p, 123361, 2173454143271796195, 10115547794579823426, 1214334918687997890);
    lemma_power_square_times(12275445934081160404, p, 246723, 1214334918687997890, 2331351119047787362, 5013457521129386188);
    lemma_power_square_times(12275445934081160404, p, 493447, 5013457521129386188, 12367592634475528824, 15021829110735092015);
    lemma_power_square(12275445934081160404, p, 986895, 15021829110735092015, 12875054229430057774);
    lemma_power_square(12275445934081160404, p, 1973790, 12875054229430057774, 13189085413205303086);
    lemma_power_square(12275445934081160404, p, 3947580, 13189085413205303086, 7390837058150600142);
    lemma_power_square(12275445934081160404, p, 7895160, 7390837058150600142, 1279620912662927432);
    lemma_power_square_times(12275445934081160404, p, 15790320, 1279620912662927432, 296945591247470081, 1129246164337980946);
    lemma_power_square_times(12275445934081160404, p, 31580641, 1129246164337980946, 17769458208704991266, 11392130255474453357);
    lemma_power_square_times(12275445934081160404, p, 63161283, 11392130255474453357, 15766643916822819967, 13350968192455222727);
    lemma_power_square_times(12275445934081160404, p, 126322567, 13350968192455222727, 14139047897054251237, 16301593560560007290);
}

/// `TWO_POWER` raised to the odd part of `M - 1` without its factor `17`.
proof fn lemma_power_without_17()
    ensures
        fpow(TWO_POWER as int, 252645135, M as int) == 16301593560560007290,
{
    lemma_power_first(TWO_POWER as int, M as int);
    lemma_power_without_17_part_1();
    lemma_power_without_17_part_2();
}

#[verifier::rlimit(60)]
proof fn lemma_power_without_257_part_1()
    requires
        fpow(TWO_POWER as int, 1, M as int) == 12275445934081160404,
    ensures
        fpow(TWO_POWER as int, 130561, M as int) == 1513428289589361160,
{
    let p = M as int;
    lemma_power_square_times(12275445934081160404, p, 1, 12275445934081160404, 4756475762779100925, 1279992132519201448);
    lemma_power_square_times(12275445934081160404, p, 3, 1279992132519201448, 11302600489504509467, 4549350404001778198);
    lemma_power_square_times(12275445934081160404, p, 7, 4549350404001778198, 11016800570561344835, 11274872323250451096);
    lemma_power_square_times(12275445934081160404, p, 15, 11274872323250451096, 12069298394184580155, 4304519570518954644);
    lemma_power_square_times(12275445934081160404, p, 31, 4304519570518954644, 12324806857078391184, 16394889243316335910);
    lemma_power_square_times(12275445934081160404, p, 63, 16394889243316335910, 12473340957261074445, 3679734199234472637);
    lemma_power_square_times(12275445934081160404, p, 127, 3679734199234472637, 8578194262823733392, 17588058450869219263);
    lemma_power_square(12275445934081160404, p, 255, 17588058450869219263, 683923235602147932);
    lemma_power_square(12275445934081160404, p, 510, 683923235602147932, 8835979233172182436);
    lemma_power_square(12275445934081160404, p, 1020, 8835979233172182436, 3355407709622930266);
    lemma_power_square(12275445934081160404, p, 2040, 3355407709622930266, 17799430507262292938);
    lemma_power_square(12275445934081160404, p, 4080, 17799430507262292938, 11182389913569094181);
    lemma_power_square(12275445934081160404, p, 8160, 11182389913569094181, 11350173437670463340);
    lemma_power_square(12275445934081160404, p, 16320, 11350173437670463340, 13348485338936455432);
    lemma_power_square(12275445934081160404, p, 32640, 13348485338936455432, 13464544557546266752);
    lemma_power_square_times(12275445934081160404, p, 65280, 13464544557546266752, 2636486945714830121, 1513428289589361160);
}

#[verifier::rlimit(60)]
proof fn lemma_power_without_257_part_2()
    requires
        fpow(TWO_POWER as int, 130561, M as int) == 1513428289589361160,
    ensures
        fpow(TWO_POWER as int, 16711935, M as int) == 995085315851368103,
{
    let p = M as int;
    lemma_power_square_times(12275445934081160404, p, 130561, 1513428289589361160, 9328946377164922880, 4375310131417860027);
    lemma_power_square_times(12275445934081160404, p, 261123, 4375310131417860027, 2804087297162569030, 2157233494186566964);
    lemma_power_square_times(12275445934081160404, p, 522247, 2157233494186566964, 6471035013242133362, 18009115704370032030);
    lemma_power_square_times(12275445934081160404, p, 1044495, 18009115704370032030, 3075563262800370696, 12804583452587087305);
    lemma_power_square_times(12275445934081160404, p, 2088991, 12804583452587087305, 4733907453246213470, 16894534560283711836);
    lemma_power_square_times(12275445934081160404, p, 4177983, 16894534560283711836, 4248078958172097799, 17537846203270146108);
    lemma_power_square_times(12275445934081160404, p, 8355967, 17537846203270146108, 3324089624542632827, 995085315851368103);
}

/// `TWO_POWER` raised to the odd part of `M - 1` without its factor `257`.
proof fn lemma_power_without_257()
    ensures
        fpow(TWO_POWER as int, 16711935, M as int) == 995085315851368103,
{
    lemma_power_first(TWO_POWER as int, M as int);
    lemma_power_without_257_part_1();
    lemma_power_without_257_part_2();
}

#[verifier::rlimit(60)]
proof fn lemma_power_without_65537_steps()
    requires
        fpow(TWO_POWER as int, 1, M as int) == 12275445934081160404,
    ensures
        fpow(TWO_POWER as int, 65535, M as int) == 8478886009461009681,
{
    let p = M as int;
    lemma_power_square_times(12275445934081160404, p, 1, 12275445934081160404, 4756475762779100925, 1279992132519201448);
    lemma_power_square_times(12275445934081160404, p, 3, 1279992132519201448, 11302600489504509467, 4549350404001778198);
    lemma_power_square_times(12275445934081160404, p, 7, 4549350404001778198, 11016800570561344835, 11274872323250451096);
    lemma_power_square_times(12275445934081160404, p, 15, 11274872323250451096, 12069298394184580155, 4304519570518954644);
    lemma_power_square_times(12275445934081160404, p, 31, 4304519570518954644, 12324806857078391184, 16394889243316335910);
    lemma_power_square_times(12275445934081160404, p, 63, 16394889243316335910, 12473340957261074445, 3679734199234472637);
    lemma_power_square_times(12275445934081160404, p, 127, 3679734199234472637, 8578194262823733392, 17588058450869219263);
    lemma_power_square_times(12275445934081160404, p, 255, 17588058450869219263, 683923235602147932, 13474118253388618134);
    lemma_power_square_times(12275445934081160404, p, 511, 13474118253388618134, 9597581785288495783, 3424231069583294856);
    lemma_power_square_times(12275445934081160404, p, 1023, 3424231069583294856, 4346132479700773704, 3212278696635431411);
    lemma_power_square_times(12275445934081160404, p, 2047, 3212278696635431411, 16719443524623950531, 8674491644268464123);
    lemma_power_square_times(12275445934081160404, p, 4095, 8674491644268464123, 6277783851271942210, 7614671795105477622);
    lemma_power_square_times(12275445934081160404, p, 8191, 7614671795105477622, 8462854283528089452, 565825823434018290);
    lemma_power_square_times(12275445934081160404, p, 16383, 565825823434018290, 4756329067240810750, 1614949354278806530);
    lemma_power_square_times(12275445934081160404, p, 32767, 1614949354278806530, 2104588347148204427, 8478886009461009681);
}

/// `TWO_POWER` raised to the odd part of `M - 1` without its factor `65537`.
proof fn lemma_power_without_65537()
    ensures
        fpow(TWO_POWER as int, 65535, M as int) == 8478886009461009681,
{
    lemma_power_first(TWO_POWER as int, M as int);
    lemma_power_without_65537_steps();
}

/// `M - 1` is `2^32` times the odd primes `3, 5, 17, 257, 65537`.
proof fn lemma_factors()
    ensures
        M - 1 == pow2(32) * ODD_PART,
        ODD_PART == 3 * 5 * 17 * 257 * 65537,
        pow2(32) == 4294967296,
        pow2(31) == 2147483648,
{
    lemma2_to64();
    lemma2_to64_rest();
}

/// A prime that divides `M - 1` is two or one of its odd prime factors.
proof fn lemma_prime_factors(s: int)
    requires
        is_prime(s),
        divides(s, M - 1),
    ensures
        s == 2 || s == 3 || s == 5 || s == 17 || s == 257 || s == 65537,
{
    lemma_factors();
    lemma_pow2(32);
    lemma_pow_positive(2, 32);
    lemma_euclid(s, pow2(32) as int, ODD_PART as int);
    if divides(s, pow2(32) as int) {
        lemma_prime_divides_power_of_two(s, 32);
    } else {
        assert(3 * 1431655765 == 4294967295);
        lemma_euclid(s, 3, 1431655765);
        if divides(s, 3) {
            lemma_prime_3();
            lemma_prime_divides_prime(s, 3);
        } else {
            assert(5 * 286331153 == 1431655765);
            lemma_euclid(s, 5, 286331153);
            if divides(s, 5) {
                lemma_prime_5();
                lemma_prime_divides_prime(s, 5);
            } else {
                assert(17 * 16843009 == 286331153);
                lemma_euclid(s, 17, 16843009);
                if divides(s, 17) {
                    lemma_prime_17();
                    lemma_prime_divides_prime(s, 17);
                } else {
                    assert(257 * 65537 == 16843009);
                    lemma_euclid(s, 257, 65537);
                    if divides(s, 257) {
                        lemma_prime_257();
                        lemma_prime_divides_prime(s, 257);
                    } else {
                        lemma_prime_65537();
                        lemma_prime_divides_prime(s, 65537);
                    }
                }
            }
        }
    }
}

/// `GENERATOR` has the order `M - 1`.
pub proof fn lemma_generator_order()
    ensures
        is_order(GENERATOR as int, (M - 1) as nat, M as int),
{
    let g = GENERATOR as int;
    let p = M as int;
    let n = (M - 1) as nat;
    lemma_factors();
    lemma_two_power();
    lemma_generator_to_root();
    lemma_fp64_root_squares();
    lemma2_to64();
    lemma2_to64_rest();
    // g^(M - 1) == G^(2^32) == (G^(2^31))^2 == 1
    lemma_fpow_mul(g, ODD_PART as nat, 2147483648, p);
    lemma_fpow_mul(g, ODD_PART as nat, 4294967296, p);
    lemma_fpow_mul(G as int, 2147483648, 2, p);
    assert(ODD_PART * 2147483648 == 9223372034707292160);
    assert(ODD_PART * 4294967296 == M - 1);
    assert(2147483648nat * 2 == 4294967296);
    assert(fpow(G as int, 2147483648, p) == M - 1);
    assert(fpow(g, 9223372034707292160, p) == M - 1);
    assert(fpow(g, n, p) == 1) by {
        lemma_power_first(M - 1, p);
        lemma_power_square(M - 1, p, 1, M - 1, 1);
    }
    assert forall|s: int| is_prime(s) && #[trigger] divides(s, n as int) implies fpow(
        g,
        (n as int / s) as nat,
        p,
    ) != 1 by {
        lemma_prime_factors(s);
        if s == 2 {
            lemma_fundamental_div_mod_converse(n as int, 2, 9223372034707292160, 0);
        }
        if s == 3 {
            lemma_fundamental_div_mod_converse(n as int, 3, 6148914689804861440, 0);
            lemma_power_without_3();
            lemma_fpow_mul(g, 4294967296, 1431655765, p);
            assert(4294967296nat * 1431655765 == 6148914689804861440);
        }
        if s == 5 {
            lemma_fundamental_div_mod_converse(n as int, 5, 3689348813882916864, 0);
            lemma_power_without_5();
            lemma_fpow_mul(g, 4294967296, 858993459, p);
            assert(4294967296nat * 858993459 == 3689348813882916864);
        }
        if s == 17 {
            lemma_fundamental_div_mod_converse(n as int, 17, 1085102592318504960, 0);
            lemma_power_without_17();
            lemma_fpow_mul(g, 4294967296, 252645135, p);
            assert(4294967296nat * 252645135 == 1085102592318504960);
        }
        if s == 257 {
            lemma_fundamental_div_mod_converse(n as int, 257, 71777214277877760, 0);
            lemma_power_without_257();
            lemma_fpow_mul(g, 4294967296, 16711935, p);
            assert(4294967296nat * 16711935 == 71777214277877760);
        }
        if s == 65537 {
            lemma_fundamental_div_mod_converse(n as int, 65537, 281470681743360, 0);
            lemma_power_without_65537();
            lemma_fpow_mul(g, 4294967296, 65535, p);
            assert(4294967296nat * 65535 == 281470681743360);
        }
    }
    lemma_full_order(g, n, p);
}

/// Every nonzero residue modulo `M` has an inverse, and is taken to one by the
/// exponent `M - 1`.
pub proof fn lemma_units(x: int)
    requires
        0 < x < M,
    ensures
        is_unit(x, M as int),
        fpow(x, (M - 1) as nat, M as int) == 1,
{
    lemma_generator_order();
    lemma_all_units(GENERATOR as int, M as int, x);
}

/// `M` is a prime.
pub proof fn lemma_modulus_is_prime()
    ensures
        is_prime(M as int),
{
    assert forall|x: int| 0 < x < M implies #[trigger] is_unit(x, M as int) by {
        lemma_units(x);
    }
    lemma_units_make_prime(M as int);
}

} // verus!
