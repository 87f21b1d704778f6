//! The roots of unity of the prime fields.
//!
//! For each field the chosen root of unity `G` is squared again and again: the
//! squares are listed here, and after as many squarings as the two-adicity of
//! the field less one they arrive at minus one, whose square is one.

use vstd::prelude::*;
use vstd::arithmetic::div_mod::lemma_small_mod;
use vstd::arithmetic::power::lemma_pow1;
use vstd::arithmetic::power2::{pow2, lemma_pow2_adds, lemma2_to64};
use crate::field::modular::{fmul, fpow, lemma_square_root_step};
use crate::field::number_theory::lemma_fpow_mul;
use crate::field::{fp62, fp64, fp128, fp252};

verus! {

/// The root of unity of order `2^n` that a field with the root `g` of order
/// `2^k` hands out: `g` squared `k - n` times.
pub open spec fn root_of_order(g: int, k: nat, n: nat, p: int) -> int {
    fpow(g, pow2((k - n) as nat), p)
}

/// Where `g` raised to `2^(k - 1)` is minus one modulo `p`, the root of unity of
/// order `2^n` has that order exactly: raised to `2^n` it is one, and raised to
/// `2^(n - 1)` it is minus one, which is not one.
pub proof fn lemma_root_order(g: int, k: nat, n: nat, p: int)
    requires
        p > 2,
        1 <= n <= k,
        fpow(g, pow2((k - 1) as nat), p) == p - 1,
    ensures
        fpow(root_of_order(g, k, n, p), pow2(n), p) == 1,
        fpow(root_of_order(g, k, n, p), pow2((n - 1) as nat), p) == p - 1,
        fpow(root_of_order(g, k, n, p), pow2((n - 1) as nat), p) != 1,
{
    let top = pow2((k - 1) as nat);
    lemma_fpow_mul(g, pow2((k - n) as nat), pow2((n - 1) as nat), p);
    lemma_pow2_adds((k - n) as nat, (n - 1) as nat);
    lemma_fpow_mul(g, pow2((k - n) as nat), pow2(n), p);
    lemma_pow2_adds((k - n) as nat, n);
    // g^(2^k) is the square of g^(2^(k - 1)), and so of minus one
    lemma_square_root_step(g, (k - 1) as nat, p);
    assert((p - 1) * (p - 1) == p * (p - 2) + 1) by (nonlinear_arith);
    vstd::arithmetic::div_mod::lemma_mod_multiples_vanish(p - 2, 1, p);
    lemma_small_mod(1, p as nat);
}

#[verifier::rlimit(60)]
proof fn lemma_fp62_root_squares_1()
    requires
        fpow(fp62::G as int, pow2(0), fp62::M as int) == 4421547261963328785,
    ensures
        fpow(fp62::G as int, pow2(32), fp62::M as int) == 2344430905335217335,
{
    let g = fp62::G as int;
    let p = fp62::M as int;
    lemma_square_root_step(g, 0, p);
    assert(fmul(4421547261963328785, 4421547261963328785, p) == 658644807958185097);
    lemma_square_root_step(g, 1, p);
    assert(fmul(658644807958185097, 658644807958185097, p) == 703490758407233531);
    lemma_square_root_step(g, 2, p);
    assert(fmul(703490758407233531, 703490758407233531, p) == 4173215943734072737);
    lemma_square_root_step(g, 3, p);
    assert(fmul(4173215943734072737, 4173215943734072737, p) == 4149177749573468740);
    lemma_square_root_step(g, 4, p);
    assert(fmul(4149177749573468740, 4149177749573468740, p) == 852856676828472364);
    lemma_square_root_step(g, 5, p);
    assert(fmul(852856676828472364, 852856676828472364, p) == 1529343655908261847);
    lemma_square_root_step(g, 6, p);
    assert(fmul(1529343655908261847, 1529343655908261847, p) == 1752211753015786864);
    lemma_square_root_step(g, 7, p);
    assert(fmul(1752211753015786864, 1752211753015786864, p) == 2129204881346268265);
    lemma_square_root_step(g, 8, p);
    assert(fmul(2129204881346268265, 2129204881346268265, p) == 1899867066674531313);
    lemma_square_root_step(g, 9, p);
    assert(fmul(1899867066674531313, 1899867066674531313, p) == 1180663075411950350);
    lemma_square_root_step(g, 10, p);
    assert(fmul(1180663075411950350, 1180663075411950350, p) == 2305361788268347016);
    lemma_square_root_step(g, 11, p);
    assert(fmul(2305361788268347016, 2305361788268347016, p) == 374608034432812943);
    lemma_square_root_step(g, 12, p);
    assert(fmul(374608034432812943, 374608034432812943, p) == 1241804912722810048);
    lemma_square_root_step(g, 13, p);
    assert(fmul(1241804912722810048, 1241804912722810048, p) == 2006647281546570374);
    lemma_square_root_step(g, 14, p);
    assert(fmul(2006647281546570374, 2006647281546570374, p) == 4302111899650452889);
    lemma_square_root_step(g, 15, p);
    assert(fmul(4302111899650452889, 4302111899650452889, p) == 577656124698672686);
    lemma_square_root_step(g, 16, p);
    assert(fmul(577656124698672686, 577656124698672686, p) == 3571438368114110292);
    lemma_square_root_step(g, 17, p);
    assert(fmul(3571438368114110292, 3571438368114110292, p) == 390365786615246944);
    lemma_square_root_step(g, 18, p);
    assert(fmul(390365786615246944, 390365786615246944, p) == 4368053653124474512);
    lemma_square_root_step(g, 19, p);
    assert(fmul(4368053653124474512, 4368053653124474512, p) == 1195823750775064895);
    lemma_square_root_step(g, 20, p);
    assert(fmul(1195823750775064895, 1195823750775064895, p) == 64097998047123464);
    lemma_square_root_step(g, 21, p);
    assert(fmul(64097998047123464, 64097998047123464, p) == 1671560214445308501);
    lemma_square_root_step(g, 22, p);
    assert(fmul(1671560214445308501, 1671560214445308501, p) == 967863994122162714);
    lemma_square_root_step(g, 23, p);
    assert(fmul(967863994122162714, 967863994122162714, p) == 782323211948997705);
    lemma_square_root_step(g, 24, p);
    assert(fmul(782323211948997705, 782323211948997705, p) == 1010356165844098483);
    lemma_square_root_step(g, 25, p);
    assert(fmul(1010356165844098483, 1010356165844098483, p) == 3849096744627988945);
    lemma_square_root_step(g, 26, p);
    assert(fmul(3849096744627988945, 3849096744627988945, p) == 1035115264450125416);
    lemma_square_root_step(g, 27, p);
    assert(fmul(1035115264450125416, 1035115264450125416, p) == 19687918969212625);
    lemma_square_root_step(g, 28, p);
    assert(fmul(19687918969212625, 19687918969212625, p) == 2397129859367383422);
    lemma_square_root_step(g, 29, p);
    assert(fmul(2397129859367383422, 2397129859367383422, p) == 136265987397192586);
    lemma_square_root_step(g, 30, p);
    assert(fmul(136265987397192586, 136265987397192586, p) == 2767953207678631637);
    lemma_square_root_step(g, 31, p);
    assert(fmul(2767953207678631637, 2767953207678631637, p) == 2344430905335217335);
}

#[verifier::rlimit(60)]
proof fn lemma_fp62_root_squares_2()
    requires
        fpow(fp62::G as int, pow2(32), fp62::M as int) == 2344430905335217335,
    ensures
        fpow(fp62::G as int, pow2(38), fp62::M as int) == 4611624995532046336,
{
    let g = fp62::G as int;
    let p = fp62::M as int;
    lemma_square_root_step(g, 32, p);
    assert(fmul(2344430905335217335, 2344430905335217335, p) == 3613060974082528145);
    lemma_square_root_step(g, 33, p);
    assert(fmul(3613060974082528145, 3613060974082528145, p) == 4483166673539581928);
    lemma_square_root_step(g, 34, p);
    assert(fmul(4483166673539581928, 4483166673539581928, p) == 3840602859942584870);
    lemma_square_root_step(g, 35, p);
    assert(fmul(3840602859942584870, 3840602859942584870, p) == 1914385750700944007);
    lemma_square_root_step(g, 36, p);
    assert(fmul(1914385750700944007, 1914385750700944007, p) == 4590556052906267303);
    lemma_square_root_step(g, 37, p);
    assert(fmul(4590556052906267303, 4590556052906267303, p) == 4611624995532046336);
}

/// In the 62-bit field `G` raised to `2^38` is minus one.
pub proof fn lemma_fp62_root_squares()
    ensures
        fpow(fp62::G as int, pow2(38), fp62::M as int) == fp62::M - 1,
{
    let g = fp62::G as int;
    let p = fp62::M as int;
    lemma2_to64();
    lemma_pow1(g);
    lemma_small_mod(g as nat, p as nat);
    assert(fpow(g, pow2(0), p) == 4421547261963328785);
    lemma_fp62_root_squares_1();
    lemma_fp62_root_squares_2();
}

/// The roots of unity of the 62-bit field have the orders they are handed
/// out for: the root of order `2^n`, which is `G` squared `39 - n` times, is one
/// when raised to `2^n`, and is not when raised to `2^(n - 1)`.
pub proof fn lemma_fp62_root_of_unity(n: nat)
    requires
        1 <= n <= 39,
    ensures
        fpow(fpow(fp62::G as int, pow2((39 - n) as nat), fp62::M as int), pow2(n), fp62::M as int) == 1,
        fpow(fpow(fp62::G as int, pow2((39 - n) as nat), fp62::M as int), pow2((n - 1) as nat), fp62::M as int) != 1,
{
    lemma_fp62_root_squares();
    lemma_root_order(fp62::G as int, 39, n, fp62::M as int);
}

#[verifier::rlimit(60)]
proof fn lemma_fp64_root_squares_1()
    requires
        fpow(fp64::G as int, pow2(0), fp64::M as int) == 1753635133440165772,
    ensures
        fpow(fp64::G as int, pow2(31), fp64::M as int) == 18446744069414584320,
{
    let g = fp64::G as int;
    let p = fp64::M as int;
    lemma_square_root_step(g, 0, p);
    assert(fmul(1753635133440165772, 1753635133440165772, p) == 4614640910117430873);
    lemma_square_root_step(g, 1, p);
    assert(fmul(4614640910117430873, 4614640910117430873, p) == 9123114210336311365);
    lemma_square_root_step(g, 2, p);
    assert(fmul(9123114210336311365, 9123114210336311365, p) == 16116352524544190054);
    lemma_square_root_step(g, 3, p);
    assert(fmul(16116352524544190054, 16116352524544190054, p) == 6414415596519834757);
    lemma_square_root_step(g, 4, p);
    assert(fmul(6414415596519834757, 6414415596519834757, p) == 1213594585890690845);
    lemma_square_root_step(g, 5, p);
    assert(fmul(1213594585890690845, 1213594585890690845, p) == 17096174751763063430);
    lemma_square_root_step(g, 6, p);
    assert(fmul(17096174751763063430, 17096174751763063430, p) == 5456943929260765144);
    lemma_square_root_step(g, 7, p);
    assert(fmul(5456943929260765144, 5456943929260765144, p) == 9713644485405565297);
    lemma_square_root_step(g, 8, p);
    assert(fmul(9713644485405565297, 9713644485405565297, p) == 16905767614792059275);
    lemma_square_root_step(g, 9, p);
    assert(fmul(16905767614792059275, 16905767614792059275, p) == 5416168637041100469);
    lemma_square_root_step(g, 10, p);
    assert(fmul(5416168637041100469, 5416168637041100469, p) == 17654865857378133588);
    lemma_square_root_step(g, 11, p);
    assert(fmul(17654865857378133588, 17654865857378133588, p) == 3511170319078647661);
    lemma_square_root_step(g, 12, p);
    assert(fmul(3511170319078647661, 3511170319078647661, p) == 18146160046829613826);
    lemma_square_root_step(g, 13, p);
    assert(fmul(18146160046829613826, 18146160046829613826, p) == 9306717745644682924);
    lemma_square_root_step(g, 14, p);
    assert(fmul(9306717745644682924, 9306717745644682924, p) == 12380578893860276750);
    lemma_square_root_step(g, 15, p);
    assert(fmul(12380578893860276750, 12380578893860276750, p) == 6115771955107415310);
    lemma_square_root_step(g, 16, p);
    assert(fmul(6115771955107415310, 6115771955107415310, p) == 17776499369601055404);
    lemma_square_root_step(g, 17, p);
    assert(fmul(17776499369601055404, 17776499369601055404, p) == 16207902636198568418);
    lemma_square_root_step(g, 18, p);
    assert(fmul(16207902636198568418, 16207902636198568418, p) == 1532612707718625687);
    lemma_square_root_step(g, 19, p);
    assert(fmul(1532612707718625687, 1532612707718625687, p) == 17492915097719143606);
    lemma_square_root_step(g, 20, p);
    assert(fmul(17492915097719143606, 17492915097719143606, p) == 455906449640507599);
    lemma_square_root_step(g, 21, p);
    assert(fmul(455906449640507599, 455906449640507599, p) == 11353340290879379826);
    lemma_square_root_step(g, 22, p);
    assert(fmul(11353340290879379826, 11353340290879379826, p) == 1803076106186727246);
    lemma_square_root_step(g, 23, p);
    assert(fmul(1803076106186727246, 1803076106186727246, p) == 13797081185216407910);
    lemma_square_root_step(g, 24, p);
    assert(fmul(13797081185216407910, 13797081185216407910, p) == 17870292113338400769);
    lemma_square_root_step(g, 25, p);
    assert(fmul(17870292113338400769, 17870292113338400769, p) == 549755813888);
    lemma_square_root_step(g, 26, p);
    assert(fmul(549755813888, 549755813888, p) == 70368744161280);
    lemma_square_root_step(g, 27, p);
    assert(fmul(70368744161280, 70368744161280, p) == 17293822564807737345);
    lemma_square_root_step(g, 28, p);
    assert(fmul(17293822564807737345, 17293822564807737345, p) == 18446744069397807105);
    lemma_square_root_step(g, 29, p);
    assert(fmul(18446744069397807105, 18446744069397807105, p) == 281474976710656);
    lemma_square_root_step(g, 30, p);
    assert(fmul(281474976710656, 281474976710656, p) == 18446744069414584320);
}

/// In the 64-bit field `G` raised to `2^31` is minus one.
pub proof fn lemma_fp64_root_squares()
    ensures
        fpow(fp64::G as int, pow2(31), fp64::M as int) == fp64::M - 1,
{
    let g = fp64::G as int;
    let p = fp64::M as int;
    lemma2_to64();
    lemma_pow1(g);
    lemma_small_mod(g as nat, p as nat);
    assert(fpow(g, pow2(0), p) == 1753635133440165772);
    lemma_fp64_root_squares_1();
}

/// The roots of unity of the 64-bit field have the orders they are handed
/// out for: the root of order `2^n`, which is `G` squared `32 - n` times, is one
/// when raised to `2^n`, and is not when raised to `2^(n - 1)`.
pub proof fn lemma_fp64_root_of_unity(n: nat)
    requires
        1 <= n <= 32,
    ensures
        fpow(fpow(fp64::G as int, pow2((32 - n) as nat), fp64::M as int), pow2(n), fp64::M as int) == 1,
        fpow(fpow(fp64::G as int, pow2((32 - n) as nat), fp64::M as int), pow2((n - 1) as nat), fp64::M as int) != 1,
{
    lemma_fp64_root_squares();
    lemma_root_order(fp64::G as int, 32, n, fp64::M as int);
}

#[verifier::rlimit(60)]
proof fn lemma_fp128_root_squares_1()
    requires
        fpow(fp128::G as int, pow2(0), fp128::M as int) == 23953097886125630542083529559205016746,
    ensures
        fpow(fp128::G as int, pow2(32), fp128::M as int) == 136257249355923752058795611038843206115,
{
    let g = fp128::G as int;
    let p = fp128::M as int;
    lemma_square_root_step(g, 0, p);
    assert(fmul(23953097886125630542083529559205016746, 23953097886125630542083529559205016746, p) == 35350638386970032172984936585581935132);
    lemma_square_root_step(g, 1, p);
    assert(fmul(35350638386970032172984936585581935132, 35350638386970032172984936585581935132, p) == 299954005975610588960127445028302232223int);
    lemma_square_root_step(g, 2, p);
    assert(fmul(299954005975610588960127445028302232223int, 299954005975610588960127445028302232223int, p) == 268766450299833026803380043897077376800int);
    lemma_square_root_step(g, 3, p);
    assert(fmul(268766450299833026803380043897077376800int, 268766450299833026803380043897077376800int, p) == 89174229732314908188995092058605097813);
    lemma_square_root_step(g, 4, p);
    assert(fmul(89174229732314908188995092058605097813, 89174229732314908188995092058605097813, p) == 143218246544836534011030291670299423880);
    lemma_square_root_step(g, 5, p);
    assert(fmul(143218246544836534011030291670299423880, 143218246544836534011030291670299423880, p) == 57965223245286836778812812814672043990);
    lemma_square_root_step(g, 6, p);
    assert(fmul(57965223245286836778812812814672043990, 57965223245286836778812812814672043990, p) == 113786451272006480597838504530998532563);
    lemma_square_root_step(g, 7, p);
    assert(fmul(113786451272006480597838504530998532563, 113786451272006480597838504530998532563, p) == 309289104524954779508682525960258742689int);
    lemma_square_root_step(g, 8, p);
    assert(fmul(309289104524954779508682525960258742689int, 309289104524954779508682525960258742689int, p) == 288816269265998269031362754590810763605int);
    lemma_square_root_step(g, 9, p);
    assert(fmul(288816269265998269031362754590810763605int, 288816269265998269031362754590810763605int, p) == 202477457160817175448865276649579603917int);
    lemma_square_root_step(g, 10, p);
    assert(fmul(202477457160817175448865276649579603917int, 202477457160817175448865276649579603917int, p) == 291002859220333128737256428414248618176int);
    lemma_square_root_step(g, 11, p);
    assert(fmul(291002859220333128737256428414248618176int, 291002859220333128737256428414248618176int, p) == 262210191456112222089946877103618371206int);
    lemma_square_root_step(g, 12, p);
    assert(fmul(262210191456112222089946877103618371206int, 262210191456112222089946877103618371206int, p) == 169373083560288093220735695737231471437);
    lemma_square_root_step(g, 13, p);
    assert(fmul(169373083560288093220735695737231471437, 169373083560288093220735695737231471437, p) == 317147576029044052645335895261115550549int);
    lemma_square_root_step(g, 14, p);
    assert(fmul(317147576029044052645335895261115550549int, 317147576029044052645335895261115550549int, p) == 171943168142144822891930992597926800892int);
    lemma_square_root_step(g, 15, p);
    assert(fmul(171943168142144822891930992597926800892int, 171943168142144822891930992597926800892int, p) == 21541544435346836569580739457897096494);
    lemma_square_root_step(g, 16, p);
    assert(fmul(21541544435346836569580739457897096494, 21541544435346836569580739457897096494, p) == 129999756949660917902024189910922888825);
    lemma_square_root_step(g, 17, p);
    assert(fmul(129999756949660917902024189910922888825, 129999756949660917902024189910922888825, p) == 282895836292207208096400573424606654993int);
    lemma_square_root_step(g, 18, p);
    assert(fmul(282895836292207208096400573424606654993int, 282895836292207208096400573424606654993int, p) == 296306845119133820321445521995708450385int);
    lemma_square_root_step(g, 19, p);
    assert(fmul(296306845119133820321445521995708450385int, 296306845119133820321445521995708450385int, p) == 273165856257350751056968870452379473385int);
    lemma_square_root_step(g, 20, p);
    assert(fmul(273165856257350751056968870452379473385int, 273165856257350751056968870452379473385int, p) == 283839073377153370490835339938956596768int);
    lemma_square_root_step(g, 21, p);
    assert(fmul(283839073377153370490835339938956596768int, 283839073377153370490835339938956596768int, p) == 105008128617997753376638997239831545739);
    lemma_square_root_step(g, 22, p);
    assert(fmul(105008128617997753376638997239831545739, 105008128617997753376638997239831545739, p) == 212059004665593815414574723988717234852int);
    lemma_square_root_step(g, 23, p);
    assert(fmul(212059004665593815414574723988717234852int, 212059004665593815414574723988717234852int, p) == 58939217512625066836357447684907331649);
    lemma_square_root_step(g, 24, p);
    assert(fmul(58939217512625066836357447684907331649, 58939217512625066836357447684907331649, p) == 183662900539509792375083495535218036265int);
    lemma_square_root_step(g, 25, p);
    assert(fmul(183662900539509792375083495535218036265int, 183662900539509792375083495535218036265int, p) == 115107371550849943973561963938279885671);
    lemma_square_root_step(g, 26, p);
    assert(fmul(115107371550849943973561963938279885671, 115107371550849943973561963938279885671, p) == 143637997944725862918595393408258080276);
    lemma_square_root_step(g, 27, p);
    assert(fmul(143637997944725862918595393408258080276, 143637997944725862918595393408258080276, p) == 196934114662940666259486270002338730851int);
    lemma_square_root_step(g, 28, p);
    assert(fmul(196934114662940666259486270002338730851int, 196934114662940666259486270002338730851int, p) == 154861683792053392940461127428578350419);
    lemma_square_root_step(g, 29, p);
    assert(fmul(154861683792053392940461127428578350419, 154861683792053392940461127428578350419, p) == 246301224039257635126066389490736973866int);
    lemma_square_root_step(g, 30, p);
    assert(fmul(246301224039257635126066389490736973866int, 246301224039257635126066389490736973866int, p) == 112446981247494782863319391933539286082);
    lemma_square_root_step(g, 31, p);
    assert(fmul(112446981247494782863319391933539286082, 112446981247494782863319391933539286082, p) == 136257249355923752058795611038843206115);
}

#[verifier::rlimit(60)]
proof fn lemma_fp128_root_squares_2()
    requires
        fpow(fp128::G as int, pow2(32), fp128::M as int) == 136257249355923752058795611038843206115,
    ensures
        fpow(fp128::G as int, pow2(39), fp128::M as int) == 340282366920938463463374557953744961536int,
{
    let g = fp128::G as int;
    let p = fp128::M as int;
    lemma_square_root_step(g, 32, p);
    assert(fmul(136257249355923752058795611038843206115, 136257249355923752058795611038843206115, p) == 317382179358537364646726782080101653266int);
    lemma_square_root_step(g, 33, p);
    assert(fmul(317382179358537364646726782080101653266int, 317382179358537364646726782080101653266int, p) == 192007975586228866417180181358753507136int);
    lemma_square_root_step(g, 34, p);
    assert(fmul(192007975586228866417180181358753507136int, 192007975586228866417180181358753507136int, p) == 177163815491556666773578150685041292257int);
    lemma_square_root_step(g, 35, p);
    assert(fmul(177163815491556666773578150685041292257int, 177163815491556666773578150685041292257int, p) == 207780475876815746145724302740566066789int);
    lemma_square_root_step(g, 36, p);
    assert(fmul(207780475876815746145724302740566066789int, 207780475876815746145724302740566066789int, p) == 215461094455166043855249150037908117929int);
    lemma_square_root_step(g, 37, p);
    assert(fmul(215461094455166043855249150037908117929int, 215461094455166043855249150037908117929int, p) == 227605400907528469561203326827972759358int);
    lemma_square_root_step(g, 38, p);
    assert(fmul(227605400907528469561203326827972759358int, 227605400907528469561203326827972759358int, p) == 340282366920938463463374557953744961536int);
}

/// In the 128-bit field `G` raised to `2^39` is minus one.
pub proof fn lemma_fp128_root_squares()
    ensures
        fpow(fp128::G as int, pow2(39), fp128::M as int) == fp128::M - 1,
{
    let g = fp128::G as int;
    let p = fp128::M as int;
    lemma2_to64();
    lemma_pow1(g);
    lemma_small_mod(g as nat, p as nat);
    assert(fpow(g, pow2(0), p) == 23953097886125630542083529559205016746);
    lemma_fp128_root_squares_1();
    lemma_fp128_root_squares_2();
}

/// The roots of unity of the 128-bit field have the orders they are handed
/// out for: the root of order `2^n`, which is `G` squared `40 - n` times, is one
/// when raised to `2^n`, and is not when raised to `2^(n - 1)`.
pub proof fn lemma_fp128_root_of_unity(n: nat)
    requires
        1 <= n <= 40,
    ensures
        fpow(fpow(fp128::G as int, pow2((40 - n) as nat), fp128::M as int), pow2(n), fp128::M as int) == 1,
        fpow(fpow(fp128::G as int, pow2((40 - n) as nat), fp128::M as int), pow2((n - 1) as nat), fp128::M as int) != 1,
{
    lemma_fp128_root_squares();
    lemma_root_order(fp128::G as int, 40, n, fp128::M as int);
}

#[verifier::rlimit(60)]
proof fn lemma_fp252_root_squares_1()
    requires
        fpow(fp252::root(), pow2(0), fp252::modulus()) == 145784604816374866144131285430889962727208297722245411306711449302875041684int,
    ensures
        fpow(fp252::root(), pow2(32), fp252::modulus()) == 2242093589380627895195410909542959859327194390341050362592732362464504418308int,
{
    let g = fp252::root();
    let p = fp252::modulus();
    lemma_square_root_step(g, 0, p);
    assert(fmul(145784604816374866144131285430889962727208297722245411306711449302875041684int, 145784604816374866144131285430889962727208297722245411306711449302875041684int, p) == 396918867328439248572028125461534224092131981820148414569713968878305359712int);
    lemma_square_root_step(g, 1, p);
    assert(fmul(396918867328439248572028125461534224092131981820148414569713968878305359712int, 396918867328439248572028125461534224092131981820148414569713968878305359712int, p) == 2565682393809217756072492327872677174669663338210817860623243749904554421084int);
    lemma_square_root_step(g, 2, p);
    assert(fmul(2565682393809217756072492327872677174669663338210817860623243749904554421084int, 2565682393809217756072492327872677174669663338210817860623243749904554421084int, p) == 3236362853928298064724492248148985984869311218523700967907954594973335906959int);
    lemma_square_root_step(g, 3, p);
    assert(fmul(3236362853928298064724492248148985984869311218523700967907954594973335906959int, 3236362853928298064724492248148985984869311218523700967907954594973335906959int, p) == 3365158766667776567767028569551906271753915026006731659714361448062149766181int);
    lemma_square_root_step(g, 4, p);
    assert(fmul(3365158766667776567767028569551906271753915026006731659714361448062149766181int, 3365158766667776567767028569551906271753915026006731659714361448062149766181int, p) == 1540604479370451363337146706939553738289295045510051811905304092910888368650int);
    lemma_square_root_step(g, 5, p);
    assert(fmul(1540604479370451363337146706939553738289295045510051811905304092910888368650int, 1540604479370451363337146706939553738289295045510051811905304092910888368650int, p) == 2767252588483324107257944244692852793602599315245539109052453466195540490420int);
    lemma_square_root_step(g, 6, p);
    assert(fmul(2767252588483324107257944244692852793602599315245539109052453466195540490420int, 2767252588483324107257944244692852793602599315245539109052453466195540490420int, p) == 2319447989624578791839875370597476384749592498092548938751941385451280960759int);
    lemma_square_root_step(g, 7, p);
    assert(fmul(2319447989624578791839875370597476384749592498092548938751941385451280960759int, 2319447989624578791839875370597476384749592498092548938751941385451280960759int, p) == 988270497185932279913754785406167164646339146488000780228414735760449899138int);
    lemma_square_root_step(g, 8, p);
    assert(fmul(988270497185932279913754785406167164646339146488000780228414735760449899138int, 988270497185932279913754785406167164646339146488000780228414735760449899138int, p) == 990688851874125364806546940197739472969892783400586954059965366835110652996int);
    lemma_square_root_step(g, 9, p);
    assert(fmul(990688851874125364806546940197739472969892783400586954059965366835110652996int, 990688851874125364806546940197739472969892783400586954059965366835110652996int, p) == 3322425842273555921278706117827135840203027977678093263990718055950679760748int);
    lemma_square_root_step(g, 10, p);
    assert(fmul(3322425842273555921278706117827135840203027977678093263990718055950679760748int, 3322425842273555921278706117827135840203027977678093263990718055950679760748int, p) == 957046307035285388579436818084540332842066228124588129783108043872922009519int);
    lemma_square_root_step(g, 11, p);
    assert(fmul(957046307035285388579436818084540332842066228124588129783108043872922009519int, 957046307035285388579436818084540332842066228124588129783108043872922009519int, p) == 1074933718642749828271104211656454118847966349064328657285919568863002953789int);
    lemma_square_root_step(g, 12, p);
    assert(fmul(1074933718642749828271104211656454118847966349064328657285919568863002953789int, 1074933718642749828271104211656454118847966349064328657285919568863002953789int, p) == 1394385873585288941203405522320957887599380549416030709411364515104057704718int);
    lemma_square_root_step(g, 13, p);
    assert(fmul(1394385873585288941203405522320957887599380549416030709411364515104057704718int, 1394385873585288941203405522320957887599380549416030709411364515104057704718int, p) == 1237753586474163061488250586692984973996569668325985992979171157722872208255int);
    lemma_square_root_step(g, 14, p);
    assert(fmul(1237753586474163061488250586692984973996569668325985992979171157722872208255int, 1237753586474163061488250586692984973996569668325985992979171157722872208255int, p) == 1608238223884249688844915009433884564045876958980870758635939496621065133486int);
    lemma_square_root_step(g, 15, p);
    assert(fmul(1608238223884249688844915009433884564045876958980870758635939496621065133486int, 1608238223884249688844915009433884564045876958980870758635939496621065133486int, p) == 2137521142907459884009950217570668187359641133019477769398909313629504712076int);
    lemma_square_root_step(g, 16, p);
    assert(fmul(2137521142907459884009950217570668187359641133019477769398909313629504712076int, 2137521142907459884009950217570668187359641133019477769398909313629504712076int, p) == 1103472051013204885309817187472518193073844428116069543645316987862264867974int);
    lemma_square_root_step(g, 17, p);
    assert(fmul(1103472051013204885309817187472518193073844428116069543645316987862264867974int, 1103472051013204885309817187472518193073844428116069543645316987862264867974int, p) == 2959873852850156113491320696123466114827813317972654296654781875089711655789int);
    lemma_square_root_step(g, 18, p);
    assert(fmul(2959873852850156113491320696123466114827813317972654296654781875089711655789int, 2959873852850156113491320696123466114827813317972654296654781875089711655789int, p) == 2724413542263978396630532786901617161942861931103118344587159733174551907973int);
    lemma_square_root_step(g, 19, p);
    assert(fmul(2724413542263978396630532786901617161942861931103118344587159733174551907973int, 2724413542263978396630532786901617161942861931103118344587159733174551907973int, p) == 1562532235843363614997122524232208631237280499784200707648068546095069404550int);
    lemma_square_root_step(g, 20, p);
    assert(fmul(1562532235843363614997122524232208631237280499784200707648068546095069404550int, 1562532235843363614997122524232208631237280499784200707648068546095069404550int, p) == 1749060156795926731994389583072269105965193366331638476433511873314549534441int);
    lemma_square_root_step(g, 21, p);
    assert(fmul(1749060156795926731994389583072269105965193366331638476433511873314549534441int, 1749060156795926731994389583072269105965193366331638476433511873314549534441int, p) == 3005965030106220742761302488166377008581118730439984840530058032535969655874int);
    lemma_square_root_step(g, 22, p);
    assert(fmul(3005965030106220742761302488166377008581118730439984840530058032535969655874int, 3005965030106220742761302488166377008581118730439984840530058032535969655874int, p) == 369339692235784519170181388918201407967771807807805619443488204376510086976int);
    lemma_square_root_step(g, 23, p);
    assert(fmul(369339692235784519170181388918201407967771807807805619443488204376510086976int, 369339692235784519170181388918201407967771807807805619443488204376510086976int, p) == 1031707261135996578794031708926518690270826493381389960351761007819853515764int);
    lemma_square_root_step(g, 24, p);
    assert(fmul(1031707261135996578794031708926518690270826493381389960351761007819853515764int, 1031707261135996578794031708926518690270826493381389960351761007819853515764int, p) == 401593298687687622413232227652410042055299225018996368229682203617054354241int);
    lemma_square_root_step(g, 25, p);
    assert(fmul(401593298687687622413232227652410042055299225018996368229682203617054354241int, 401593298687687622413232227652410042055299225018996368229682203617054354241int, p) == 2705862407154603928025572865328172643009293291682052319250239743994261468869int);
    lemma_square_root_step(g, 26, p);
    assert(fmul(2705862407154603928025572865328172643009293291682052319250239743994261468869int, 2705862407154603928025572865328172643009293291682052319250239743994261468869int, p) == 153462198110873752323668841531063176991356606433460236579441477168935471269int);
    lemma_square_root_step(g, 27, p);
    assert(fmul(153462198110873752323668841531063176991356606433460236579441477168935471269int, 153462198110873752323668841531063176991356606433460236579441477168935471269int, p) == 3530290826052422843277707507759403283374392510908967355903729300009672789822int);
    lemma_square_root_step(g, 28, p);
    assert(fmul(3530290826052422843277707507759403283374392510908967355903729300009672789822int, 3530290826052422843277707507759403283374392510908967355903729300009672789822int, p) == 431996171305994878661479766733553495657103860475671209993358531164039096503int);
    lemma_square_root_step(g, 29, p);
    assert(fmul(431996171305994878661479766733553495657103860475671209993358531164039096503int, 431996171305994878661479766733553495657103860475671209993358531164039096503int, p) == 2211645748252549683332267685015106619141520141425021389309772836412686747911int);
    lemma_square_root_step(g, 30, p);
    assert(fmul(2211645748252549683332267685015106619141520141425021389309772836412686747911int, 2211645748252549683332267685015106619141520141425021389309772836412686747911int, p) == 2411685274039222965859056870059146104449608605915771513354730646540873355572int);
    lemma_square_root_step(g, 31, p);
    assert(fmul(2411685274039222965859056870059146104449608605915771513354730646540873355572int, 2411685274039222965859056870059146104449608605915771513354730646540873355572int, p) == 2242093589380627895195410909542959859327194390341050362592732362464504418308int);
}

#[verifier::rlimit(60)]
proof fn lemma_fp252_root_squares_2()
    requires
        fpow(fp252::root(), pow2(32), fp252::modulus()) == 2242093589380627895195410909542959859327194390341050362592732362464504418308int,
    ensures
        fpow(fp252::root(), pow2(64), fp252::modulus()) == 153289234924079565946437776436074279682595546102307180512738738116622076058int,
{
    let g = fp252::root();
    let p = fp252::modulus();
    lemma_square_root_step(g, 32, p);
    assert(fmul(2242093589380627895195410909542959859327194390341050362592732362464504418308int, 2242093589380627895195410909542959859327194390341050362592732362464504418308int, p) == 3600779143806988409617808888136833314052771978274706685358496946941672769993int);
    lemma_square_root_step(g, 33, p);
    assert(fmul(3600779143806988409617808888136833314052771978274706685358496946941672769993int, 3600779143806988409617808888136833314052771978274706685358496946941672769993int, p) == 1837541753174641869895191866369912875808565967880997753340188505607307153047int);
    lemma_square_root_step(g, 34, p);
    assert(fmul(1837541753174641869895191866369912875808565967880997753340188505607307153047int, 1837541753174641869895191866369912875808565967880997753340188505607307153047int, p) == 846833954453661729080585347989721304391305771423540573781199012538930189142int);
    lemma_square_root_step(g, 35, p);
    assert(fmul(846833954453661729080585347989721304391305771423540573781199012538930189142int, 846833954453661729080585347989721304391305771423540573781199012538930189142int, p) == 1331373651928977192838328492018764933133784992379786901969116784025155314786int);
    lemma_square_root_step(g, 36, p);
    assert(fmul(1331373651928977192838328492018764933133784992379786901969116784025155314786int, 1331373651928977192838328492018764933133784992379786901969116784025155314786int, p) == 768599725077322975855350143373754973100914571090607920892651486776408787453int);
    lemma_square_root_step(g, 37, p);
    assert(fmul(768599725077322975855350143373754973100914571090607920892651486776408787453int, 768599725077322975855350143373754973100914571090607920892651486776408787453int, p) == 1754242498617794794561690151622813980637102577681726846273850070422756633293int);
    lemma_square_root_step(g, 38, p);
    assert(fmul(1754242498617794794561690151622813980637102577681726846273850070422756633293int, 1754242498617794794561690151622813980637102577681726846273850070422756633293int, p) == 979839598718655414466798068734056727148413261191878827078901038988396963568int);
    lemma_square_root_step(g, 39, p);
    assert(fmul(979839598718655414466798068734056727148413261191878827078901038988396963568int, 979839598718655414466798068734056727148413261191878827078901038988396963568int, p) == 2314115884136352939603086113004980076328413434537965918239058788710806993891int);
    lemma_square_root_step(g, 40, p);
    assert(fmul(2314115884136352939603086113004980076328413434537965918239058788710806993891int, 2314115884136352939603086113004980076328413434537965918239058788710806993891int, p) == 2975208993377917539124983208230850481605063807561795380384846574268566652743int);
    lemma_square_root_step(g, 41, p);
    assert(fmul(2975208993377917539124983208230850481605063807561795380384846574268566652743int, 2975208993377917539124983208230850481605063807561795380384846574268566652743int, p) == 376483263725431613585933514029086571028866313209491568822603269602763059560int);
    lemma_square_root_step(g, 42, p);
    assert(fmul(376483263725431613585933514029086571028866313209491568822603269602763059560int, 376483263725431613585933514029086571028866313209491568822603269602763059560int, p) == 615519010831488134327055973546048060607835636983910531438519036855977321540int);
    lemma_square_root_step(g, 43, p);
    assert(fmul(615519010831488134327055973546048060607835636983910531438519036855977321540int, 615519010831488134327055973546048060607835636983910531438519036855977321540int, p) == 3403788333633662951370057954912855216056214489510527562917487124171779138897int);
    lemma_square_root_step(g, 44, p);
    assert(fmul(3403788333633662951370057954912855216056214489510527562917487124171779138897int, 3403788333633662951370057954912855216056214489510527562917487124171779138897int, p) == 2347420900075880037376569569801823515867789092594084133676031582438049996857int);
    lemma_square_root_step(g, 45, p);
    assert(fmul(2347420900075880037376569569801823515867789092594084133676031582438049996857int, 2347420900075880037376569569801823515867789092594084133676031582438049996857int, p) == 2138395309053731293897780312805917583868352235968387868993582069897726598209int);
    lemma_square_root_step(g, 46, p);
    assert(fmul(2138395309053731293897780312805917583868352235968387868993582069897726598209int, 2138395309053731293897780312805917583868352235968387868993582069897726598209int, p) == 1040633896728568248049504157329728918195615554015629401530831238042385234519int);
    lemma_square_root_step(g, 47, p);
    assert(fmul(1040633896728568248049504157329728918195615554015629401530831238042385234519int, 1040633896728568248049504157329728918195615554015629401530831238042385234519int, p) == 2622199643170977862178959568246395098315729482743343243276713452197884770919int);
    lemma_square_root_step(g, 48, p);
    assert(fmul(2622199643170977862178959568246395098315729482743343243276713452197884770919int, 2622199643170977862178959568246395098315729482743343243276713452197884770919int, p) == 437620092591307242417299230714836733802759244969319980808787888145789231340int);
    lemma_square_root_step(g, 49, p);
    assert(fmul(437620092591307242417299230714836733802759244969319980808787888145789231340int, 437620092591307242417299230714836733802759244969319980808787888145789231340int, p) == 1221686005176196472495603714642938217006759799116871208743707463598425485037int);
    lemma_square_root_step(g, 50, p);
    assert(fmul(1221686005176196472495603714642938217006759799116871208743707463598425485037int, 1221686005176196472495603714642938217006759799116871208743707463598425485037int, p) == 3494565292577926977132575319783738864084940196775072588685490193743244380527int);
    lemma_square_root_step(g, 51, p);
    assert(fmul(3494565292577926977132575319783738864084940196775072588685490193743244380527int, 3494565292577926977132575319783738864084940196775072588685490193743244380527int, p) == 3429320543785831944295598419766270754425500208274142416557213953716088687026int);
    lemma_square_root_step(g, 52, p);
    assert(fmul(3429320543785831944295598419766270754425500208274142416557213953716088687026int, 3429320543785831944295598419766270754425500208274142416557213953716088687026int, p) == 2802407985703285829828414921068449129369318846049079434887148312166222544876int);
    lemma_square_root_step(g, 53, p);
    assert(fmul(2802407985703285829828414921068449129369318846049079434887148312166222544876int, 2802407985703285829828414921068449129369318846049079434887148312166222544876int, p) == 3580676299277003703707989233703352383161616208097752523664283792670095390001int);
    lemma_square_root_step(g, 54, p);
    assert(fmul(3580676299277003703707989233703352383161616208097752523664283792670095390001int, 3580676299277003703707989233703352383161616208097752523664283792670095390001int, p) == 2344465220453825374301466795485376056651867915515575838067370393604225025783int);
    lemma_square_root_step(g, 55, p);
    assert(fmul(2344465220453825374301466795485376056651867915515575838067370393604225025783int, 2344465220453825374301466795485376056651867915515575838067370393604225025783int, p) == 2799751525059809611700477910559380063156839585105346076652538599723888795645int);
    lemma_square_root_step(g, 56, p);
    assert(fmul(2799751525059809611700477910559380063156839585105346076652538599723888795645int, 2799751525059809611700477910559380063156839585105346076652538599723888795645int, p) == 1576869342150143074946199205832453116856753997505729974278923330090493478215int);
    lemma_square_root_step(g, 57, p);
    assert(fmul(1576869342150143074946199205832453116856753997505729974278923330090493478215int, 1576869342150143074946199205832453116856753997505729974278923330090493478215int, p) == 1466362071520010902094053339818081344540102257101013792625747757686968774514int);
    lemma_square_root_step(g, 58, p);
    assert(fmul(1466362071520010902094053339818081344540102257101013792625747757686968774514int, 1466362071520010902094053339818081344540102257101013792625747757686968774514int, p) == 1394346800814736046731389775275976520462376187935208131684338451684940796722int);
    lemma_square_root_step(g, 59, p);
    assert(fmul(1394346800814736046731389775275976520462376187935208131684338451684940796722int, 1394346800814736046731389775275976520462376187935208131684338451684940796722int, p) == 398545630721858050411853127551958085407147253021471225187370938620795558744int);
    lemma_square_root_step(g, 60, p);
    assert(fmul(398545630721858050411853127551958085407147253021471225187370938620795558744int, 398545630721858050411853127551958085407147253021471225187370938620795558744int, p) == 1861175439344562897698124627808282420897932407159721063926832713778681158599int);
    lemma_square_root_step(g, 61, p);
    assert(fmul(1861175439344562897698124627808282420897932407159721063926832713778681158599int, 1861175439344562897698124627808282420897932407159721063926832713778681158599int, p) == 412151851334128403308710129263112183237764873814030589491271000700849572431int);
    lemma_square_root_step(g, 62, p);
    assert(fmul(412151851334128403308710129263112183237764873814030589491271000700849572431int, 412151851334128403308710129263112183237764873814030589491271000700849572431int, p) == 1625011074782181411785068362922736296451681900054563520846015533416381851998int);
    lemma_square_root_step(g, 63, p);
    assert(fmul(1625011074782181411785068362922736296451681900054563520846015533416381851998int, 1625011074782181411785068362922736296451681900054563520846015533416381851998int, p) == 153289234924079565946437776436074279682595546102307180512738738116622076058int);
}

#[verifier::rlimit(60)]
proof fn lemma_fp252_root_squares_3()
    requires
        fpow(fp252::root(), pow2(64), fp252::modulus()) == 153289234924079565946437776436074279682595546102307180512738738116622076058int,
    ensures
        fpow(fp252::root(), pow2(96), fp252::modulus()) == 734359434749333274731561950066033488557132867034037630098673366478969658649int,
{
    let g = fp252::root();
    let p = fp252::modulus();
    lemma_square_root_step(g, 64, p);
    assert(fmul(153289234924079565946437776436074279682595546102307180512738738116622076058int, 153289234924079565946437776436074279682595546102307180512738738116622076058int, p) == 2566518546357465698307618984016346385827423042366941504733140772238425798179int);
    lemma_square_root_step(g, 65, p);
    assert(fmul(2566518546357465698307618984016346385827423042366941504733140772238425798179int, 2566518546357465698307618984016346385827423042366941504733140772238425798179int, p) == 2515493311686898200200086846413795312263441429654436804494537491931784602602int);
    lemma_square_root_step(g, 66, p);
    assert(fmul(2515493311686898200200086846413795312263441429654436804494537491931784602602int, 2515493311686898200200086846413795312263441429654436804494537491931784602602int, p) == 1540054143867871818763825243910094979702308211934782734065367632768387879705int);
    lemma_square_root_step(g, 67, p);
    assert(fmul(1540054143867871818763825243910094979702308211934782734065367632768387879705int, 1540054143867871818763825243910094979702308211934782734065367632768387879705int, p) == 115926691424865954619651841678984313124078262423229606331562210825546761738int);
    lemma_square_root_step(g, 68, p);
    assert(fmul(115926691424865954619651841678984313124078262423229606331562210825546761738int, 115926691424865954619651841678984313124078262423229606331562210825546761738int, p) == 2799085141946686836773106532447948287398273293173102834002218266490511058010int);
    lemma_square_root_step(g, 69, p);
    assert(fmul(2799085141946686836773106532447948287398273293173102834002218266490511058010int, 2799085141946686836773106532447948287398273293173102834002218266490511058010int, p) == 2003437110337707462683667997036464033324306139025307105714933895887283431640int);
    lemma_square_root_step(g, 70, p);
    assert(fmul(2003437110337707462683667997036464033324306139025307105714933895887283431640int, 2003437110337707462683667997036464033324306139025307105714933895887283431640int, p) == 59102031053203838707077415503121130751756140659114271472554698868643502848int);
    lemma_square_root_step(g, 71, p);
    assert(fmul(59102031053203838707077415503121130751756140659114271472554698868643502848int, 59102031053203838707077415503121130751756140659114271472554698868643502848int, p) == 2128094764020025532355746270407253578161373618696487500510171321449086583436int);
    lemma_square_root_step(g, 72, p);
    assert(fmul(2128094764020025532355746270407253578161373618696487500510171321449086583436int, 2128094764020025532355746270407253578161373618696487500510171321449086583436int, p) == 1461989093026908681047068697699681412805221685872242204077563610256312457342int);
    lemma_square_root_step(g, 73, p);
    assert(fmul(1461989093026908681047068697699681412805221685872242204077563610256312457342int, 1461989093026908681047068697699681412805221685872242204077563610256312457342int, p) == 3435523113675416517360377473479240614258910118200515831515168995207243868884int);
    lemma_square_root_step(g, 74, p);
    assert(fmul(3435523113675416517360377473479240614258910118200515831515168995207243868884int, 3435523113675416517360377473479240614258910118200515831515168995207243868884int, p) == 241044448546233445321311539087349736580225694788194858896820620914259183107int);
    lemma_square_root_step(g, 75, p);
    assert(fmul(241044448546233445321311539087349736580225694788194858896820620914259183107int, 241044448546233445321311539087349736580225694788194858896820620914259183107int, p) == 641391612892373358527854706711909724146447051027145933174492779306178310179int);
    lemma_square_root_step(g, 76, p);
    assert(fmul(641391612892373358527854706711909724146447051027145933174492779306178310179int, 641391612892373358527854706711909724146447051027145933174492779306178310179int, p) == 248811642451259959328623803409321656115690611346688297766759153300200635583int);
    lemma_square_root_step(g, 77, p);
    assert(fmul(248811642451259959328623803409321656115690611346688297766759153300200635583int, 248811642451259959328623803409321656115690611346688297766759153300200635583int, p) == 2365947891070251743224711090243120994921663400932126853527341249294487086426int);
    lemma_square_root_step(g, 78, p);
    assert(fmul(2365947891070251743224711090243120994921663400932126853527341249294487086426int, 2365947891070251743224711090243120994921663400932126853527341249294487086426int, p) == 2178837564698102490717778436930098672009618387271674535970671800459502192655int);
    lemma_square_root_step(g, 79, p);
    assert(fmul(2178837564698102490717778436930098672009618387271674535970671800459502192655int, 2178837564698102490717778436930098672009618387271674535970671800459502192655int, p) == 1887934373858631010695983460129632893191805345963663160575856079214431566062int);
    lemma_square_root_step(g, 80, p);
    assert(fmul(1887934373858631010695983460129632893191805345963663160575856079214431566062int, 1887934373858631010695983460129632893191805345963663160575856079214431566062int, p) == 1847431335529343951512100581155696285976831752311089146624732349991324500766int);
    lemma_square_root_step(g, 81, p);
    assert(fmul(1847431335529343951512100581155696285976831752311089146624732349991324500766int, 1847431335529343951512100581155696285976831752311089146624732349991324500766int, p) == 297945159928539626973140732764657008784253962283116218235554840604934427667int);
    lemma_square_root_step(g, 82, p);
    assert(fmul(297945159928539626973140732764657008784253962283116218235554840604934427667int, 297945159928539626973140732764657008784253962283116218235554840604934427667int, p) == 1064099922964933618740285034029711975489599459739809246687648719239751404606int);
    lemma_square_root_step(g, 83, p);
    assert(fmul(1064099922964933618740285034029711975489599459739809246687648719239751404606int, 1064099922964933618740285034029711975489599459739809246687648719239751404606int, p) == 3307512177782751389637116255810897505110527860342111304134357164669609761956int);
    lemma_square_root_step(g, 84, p);
    assert(fmul(3307512177782751389637116255810897505110527860342111304134357164669609761956int, 3307512177782751389637116255810897505110527860342111304134357164669609761956int, p) == 2645264876694231741693358333568966419827800539481272139664090533076613656841int);
    lemma_square_root_step(g, 85, p);
    assert(fmul(2645264876694231741693358333568966419827800539481272139664090533076613656841int, 2645264876694231741693358333568966419827800539481272139664090533076613656841int, p) == 2283748942552642204274995064111653792086159170075440409374015495875596798643int);
    lemma_square_root_step(g, 86, p);
    assert(fmul(2283748942552642204274995064111653792086159170075440409374015495875596798643int, 2283748942552642204274995064111653792086159170075440409374015495875596798643int, p) == 3047899998012075337896322714394797268432568702948399844404910427908829769831int);
    lemma_square_root_step(g, 87, p);
    assert(fmul(3047899998012075337896322714394797268432568702948399844404910427908829769831int, 3047899998012075337896322714394797268432568702948399844404910427908829769831int, p) == 3422790608444592281222850205198806001760554365170645375917974233410682761096int);
    lemma_square_root_step(g, 88, p);
    assert(fmul(3422790608444592281222850205198806001760554365170645375917974233410682761096int, 3422790608444592281222850205198806001760554365170645375917974233410682761096int, p) == 2146618001074135119296953415743023652653166978709639326341559878278015941826int);
    lemma_square_root_step(g, 89, p);
    assert(fmul(2146618001074135119296953415743023652653166978709639326341559878278015941826int, 2146618001074135119296953415743023652653166978709639326341559878278015941826int, p) == 475525989672926996310905857543435824630043289263382536465092115296117262025int);
    lemma_square_root_step(g, 90, p);
    assert(fmul(475525989672926996310905857543435824630043289263382536465092115296117262025int, 475525989672926996310905857543435824630043289263382536465092115296117262025int, p) == 355817427280495419374273574250060922573973104746445949891660905992378903333int);
    lemma_square_root_step(g, 91, p);
    assert(fmul(355817427280495419374273574250060922573973104746445949891660905992378903333int, 355817427280495419374273574250060922573973104746445949891660905992378903333int, p) == 1526820435228705682467020319740085608426409317574555131885854965862843653945int);
    lemma_square_root_step(g, 92, p);
    assert(fmul(1526820435228705682467020319740085608426409317574555131885854965862843653945int, 1526820435228705682467020319740085608426409317574555131885854965862843653945int, p) == 168879122984293523892577348368584703100563629756766711078948967659620956038int);
    lemma_square_root_step(g, 93, p);
    assert(fmul(168879122984293523892577348368584703100563629756766711078948967659620956038int, 168879122984293523892577348368584703100563629756766711078948967659620956038int, p) == 2897732973376524489863900894084362680993824294699063110590110748116737298545int);
    lemma_square_root_step(g, 94, p);
    assert(fmul(2897732973376524489863900894084362680993824294699063110590110748116737298545int, 2897732973376524489863900894084362680993824294699063110590110748116737298545int, p) == 2154915919020117611969761350750674361916225920145291221990005326027591276450int);
    lemma_square_root_step(g, 95, p);
    assert(fmul(2154915919020117611969761350750674361916225920145291221990005326027591276450int, 2154915919020117611969761350750674361916225920145291221990005326027591276450int, p) == 734359434749333274731561950066033488557132867034037630098673366478969658649int);
}

#[verifier::rlimit(60)]
proof fn lemma_fp252_root_squares_4()
    requires
        fpow(fp252::root(), pow2(96), fp252::modulus()) == 734359434749333274731561950066033488557132867034037630098673366478969658649int,
    ensures
        fpow(fp252::root(), pow2(128), fp252::modulus()) == 488771123863844209355583129054529418600988399527943684023866861371914947341int,
{
    let g = fp252::root();
    let p = fp252::modulus();
    lemma_square_root_step(g, 96, p);
    assert(fmul(734359434749333274731561950066033488557132867034037630098673366478969658649int, 734359434749333274731561950066033488557132867034037630098673366478969658649int, p) == 3464750034885361884462797244925499806435527472302514216467889320310830820944int);
    lemma_square_root_step(g, 97, p);
    assert(fmul(3464750034885361884462797244925499806435527472302514216467889320310830820944int, 3464750034885361884462797244925499806435527472302514216467889320310830820944int, p) == 1019444927719861703233542877340046846144661561598226308082833926528228280417int);
    lemma_square_root_step(g, 98, p);
    assert(fmul(1019444927719861703233542877340046846144661561598226308082833926528228280417int, 1019444927719861703233542877340046846144661561598226308082833926528228280417int, p) == 426945003336761713201833253667835505040172252156810034594354226121823723949int);
    lemma_square_root_step(g, 99, p);
    assert(fmul(426945003336761713201833253667835505040172252156810034594354226121823723949int, 426945003336761713201833253667835505040172252156810034594354226121823723949int, p) == 2672430702542496843173875831598912576365570392829107975634727685734003824183int);
    lemma_square_root_step(g, 100, p);
    assert(fmul(2672430702542496843173875831598912576365570392829107975634727685734003824183int, 2672430702542496843173875831598912576365570392829107975634727685734003824183int, p) == 663212277921288315071486036096159123250273514637236206587580169452882494890int);
    lemma_square_root_step(g, 101, p);
    assert(fmul(663212277921288315071486036096159123250273514637236206587580169452882494890int, 663212277921288315071486036096159123250273514637236206587580169452882494890int, p) == 2752073366363562012872104079792841427111000637547328303125767026077605426307int);
    lemma_square_root_step(g, 102, p);
    assert(fmul(2752073366363562012872104079792841427111000637547328303125767026077605426307int, 2752073366363562012872104079792841427111000637547328303125767026077605426307int, p) == 605753963480838526647910255646149143542477158005328580066774687782030332486int);
    lemma_square_root_step(g, 103, p);
    assert(fmul(605753963480838526647910255646149143542477158005328580066774687782030332486int, 605753963480838526647910255646149143542477158005328580066774687782030332486int, p) == 1565608084066774977857900719997336849449978723251571436315493537470350791190int);
    lemma_square_root_step(g, 104, p);
    assert(fmul(1565608084066774977857900719997336849449978723251571436315493537470350791190int, 1565608084066774977857900719997336849449978723251571436315493537470350791190int, p) == 2587856292161592159686719598494151482190388507863091672462407362565830150752int);
    lemma_square_root_step(g, 105, p);
    assert(fmul(2587856292161592159686719598494151482190388507863091672462407362565830150752int, 2587856292161592159686719598494151482190388507863091672462407362565830150752int, p) == 2484687084888432091739487519154702099312561238943706475798762583703671579838int);
    lemma_square_root_step(g, 106, p);
    assert(fmul(2484687084888432091739487519154702099312561238943706475798762583703671579838int, 2484687084888432091739487519154702099312561238943706475798762583703671579838int, p) == 1671714710373743445709401138296880723938948819689834674079358764601637896792int);
    lemma_square_root_step(g, 107, p);
    assert(fmul(1671714710373743445709401138296880723938948819689834674079358764601637896792int, 1671714710373743445709401138296880723938948819689834674079358764601637896792int, p) == 1389416888015432408919000838977700860280446364335488138870766704395309618570int);
    lemma_square_root_step(g, 108, p);
    assert(fmul(1389416888015432408919000838977700860280446364335488138870766704395309618570int, 1389416888015432408919000838977700860280446364335488138870766704395309618570int, p) == 132592043154717095871837927994232092806864584830520524075965170892431800012int);
    lemma_square_root_step(g, 109, p);
    assert(fmul(132592043154717095871837927994232092806864584830520524075965170892431800012int, 132592043154717095871837927994232092806864584830520524075965170892431800012int, p) == 2970930343065709988181413482663518222880451419370567419423111435574678884480int);
    lemma_square_root_step(g, 110, p);
    assert(fmul(2970930343065709988181413482663518222880451419370567419423111435574678884480int, 2970930343065709988181413482663518222880451419370567419423111435574678884480int, p) == 624168419026188547360402247927664075299597934919515177323346498286207625586int);
    lemma_square_root_step(g, 111, p);
    assert(fmul(624168419026188547360402247927664075299597934919515177323346498286207625586int, 624168419026188547360402247927664075299597934919515177323346498286207625586int, p) == 2781445998776869946098284154834169538185032248774026450794349873986463731491int);
    lemma_square_root_step(g, 112, p);
    assert(fmul(2781445998776869946098284154834169538185032248774026450794349873986463731491int, 2781445998776869946098284154834169538185032248774026450794349873986463731491int, p) == 802031734035938856781252896872719179606350191750212799541131345461385292812int);
    lemma_square_root_step(g, 113, p);
    assert(fmul(802031734035938856781252896872719179606350191750212799541131345461385292812int, 802031734035938856781252896872719179606350191750212799541131345461385292812int, p) == 2652877308604177735465349172712730841264895267381922182317199601047164326577int);
    lemma_square_root_step(g, 114, p);
    assert(fmul(2652877308604177735465349172712730841264895267381922182317199601047164326577int, 2652877308604177735465349172712730841264895267381922182317199601047164326577int, p) == 60693910230708833785321830239673351251463962941469821442860003199149213481int);
    lemma_square_root_step(g, 115, p);
    assert(fmul(60693910230708833785321830239673351251463962941469821442860003199149213481int, 60693910230708833785321830239673351251463962941469821442860003199149213481int, p) == 2992259377774797013130931130697050091528180303985102184719409385229108164908int);
    lemma_square_root_step(g, 116, p);
    assert(fmul(2992259377774797013130931130697050091528180303985102184719409385229108164908int, 2992259377774797013130931130697050091528180303985102184719409385229108164908int, p) == 2240676090467957204577804471588550563705527283969559087627807772240599051758int);
    lemma_square_root_step(g, 117, p);
    assert(fmul(2240676090467957204577804471588550563705527283969559087627807772240599051758int, 2240676090467957204577804471588550563705527283969559087627807772240599051758int, p) == 1729016699487107603402143142201641733161268202170226487207071682207802757063int);
    lemma_square_root_step(g, 118, p);
    assert(fmul(1729016699487107603402143142201641733161268202170226487207071682207802757063int, 1729016699487107603402143142201641733161268202170226487207071682207802757063int, p) == 3471619213970306321974643883450923286316510080982190779121677718270334160410int);
    lemma_square_root_step(g, 119, p);
    assert(fmul(3471619213970306321974643883450923286316510080982190779121677718270334160410int, 3471619213970306321974643883450923286316510080982190779121677718270334160410int, p) == 3198914868929294039585316352329249150431995938524803022391127023867222477057int);
    lemma_square_root_step(g, 120, p);
    assert(fmul(3198914868929294039585316352329249150431995938524803022391127023867222477057int, 3198914868929294039585316352329249150431995938524803022391127023867222477057int, p) == 1369989534215173774502537761982381193156026638615462249439014060955002768569int);
    lemma_square_root_step(g, 121, p);
    assert(fmul(1369989534215173774502537761982381193156026638615462249439014060955002768569int, 1369989534215173774502537761982381193156026638615462249439014060955002768569int, p) == 327671676045838497864650303892674349952887984012931352288452214573268128334int);
    lemma_square_root_step(g, 122, p);
    assert(fmul(327671676045838497864650303892674349952887984012931352288452214573268128334int, 327671676045838497864650303892674349952887984012931352288452214573268128334int, p) == 623540501186373427936674904884250164239142784029447190472735018582950008928int);
    lemma_square_root_step(g, 123, p);
    assert(fmul(623540501186373427936674904884250164239142784029447190472735018582950008928int, 623540501186373427936674904884250164239142784029447190472735018582950008928int, p) == 542799948121648114536847078849720897675677379595163956823991586595472243523int);
    lemma_square_root_step(g, 124, p);
    assert(fmul(542799948121648114536847078849720897675677379595163956823991586595472243523int, 542799948121648114536847078849720897675677379595163956823991586595472243523int, p) == 57655111497332805815939020253343011411409473881085112060594961891102292163int);
    lemma_square_root_step(g, 125, p);
    assert(fmul(57655111497332805815939020253343011411409473881085112060594961891102292163int, 57655111497332805815939020253343011411409473881085112060594961891102292163int, p) == 1705421239468371854408549195382736510033449890970581450203722319542064066300int);
    lemma_square_root_step(g, 126, p);
    assert(fmul(1705421239468371854408549195382736510033449890970581450203722319542064066300int, 1705421239468371854408549195382736510033449890970581450203722319542064066300int, p) == 620447013543208709829644615690908332194052185654478696802616910010424565077int);
    lemma_square_root_step(g, 127, p);
    assert(fmul(620447013543208709829644615690908332194052185654478696802616910010424565077int, 620447013543208709829644615690908332194052185654478696802616910010424565077int, p) == 488771123863844209355583129054529418600988399527943684023866861371914947341int);
}

#[verifier::rlimit(60)]
proof fn lemma_fp252_root_squares_5()
    requires
        fpow(fp252::root(), pow2(128), fp252::modulus()) == 488771123863844209355583129054529418600988399527943684023866861371914947341int,
    ensures
        fpow(fp252::root(), pow2(160), fp252::modulus()) == 2274283650448687101415851970593711626031105468891204880928373412733104589202int,
{
    let g = fp252::root();
    let p = fp252::modulus();
    lemma_square_root_step(g, 128, p);
    assert(fmul(488771123863844209355583129054529418600988399527943684023866861371914947341int, 488771123863844209355583129054529418600988399527943684023866861371914947341int, p) == 2520422805586262257164957393887936112131487973631106770679674805050119335763int);
    lemma_square_root_step(g, 129, p);
    assert(fmul(2520422805586262257164957393887936112131487973631106770679674805050119335763int, 2520422805586262257164957393887936112131487973631106770679674805050119335763int, p) == 1685430337235948795636288417721830360785894495309953957613285038576886167405int);
    lemma_square_root_step(g, 130, p);
    assert(fmul(1685430337235948795636288417721830360785894495309953957613285038576886167405int, 1685430337235948795636288417721830360785894495309953957613285038576886167405int, p) == 1736906538201723380978685532770286969861799505296601225711398655791360144751int);
    lemma_square_root_step(g, 131, p);
    assert(fmul(1736906538201723380978685532770286969861799505296601225711398655791360144751int, 1736906538201723380978685532770286969861799505296601225711398655791360144751int, p) == 3323992340014315907661104753771975382774661732728720030099850849397997158792int);
    lemma_square_root_step(g, 132, p);
    assert(fmul(3323992340014315907661104753771975382774661732728720030099850849397997158792int, 3323992340014315907661104753771975382774661732728720030099850849397997158792int, p) == 3218927152200771160968124897360126267512943271900804552965778207960569751212int);
    lemma_square_root_step(g, 133, p);
    assert(fmul(3218927152200771160968124897360126267512943271900804552965778207960569751212int, 3218927152200771160968124897360126267512943271900804552965778207960569751212int, p) == 1621799870241521319793004370955582963186649634689631302025575979631569199019int);
    lemma_square_root_step(g, 134, p);
    assert(fmul(1621799870241521319793004370955582963186649634689631302025575979631569199019int, 1621799870241521319793004370955582963186649634689631302025575979631569199019int, p) == 441561054205656328981044802483931928702987704633557958831753801122513631590int);
    lemma_square_root_step(g, 135, p);
    assert(fmul(441561054205656328981044802483931928702987704633557958831753801122513631590int, 441561054205656328981044802483931928702987704633557958831753801122513631590int, p) == 578653515487225190079019084854294521017258472769586722111502409821919122236int);
    lemma_square_root_step(g, 136, p);
    assert(fmul(578653515487225190079019084854294521017258472769586722111502409821919122236int, 578653515487225190079019084854294521017258472769586722111502409821919122236int, p) == 1550969514888665027480659964252596421142521607348950670655099533144898376177int);
    lemma_square_root_step(g, 137, p);
    assert(fmul(1550969514888665027480659964252596421142521607348950670655099533144898376177int, 1550969514888665027480659964252596421142521607348950670655099533144898376177int, p) == 3584112419332158263672426341740146194829914874254093997526285002211681350423int);
    lemma_square_root_step(g, 138, p);
    assert(fmul(3584112419332158263672426341740146194829914874254093997526285002211681350423int, 3584112419332158263672426341740146194829914874254093997526285002211681350423int, p) == 21674904027705781140393160183569415745807421652138043991886969775018734876int);
    lemma_square_root_step(g, 139, p);
    assert(fmul(21674904027705781140393160183569415745807421652138043991886969775018734876int, 21674904027705781140393160183569415745807421652138043991886969775018734876int, p) == 2523036465503331824291700663027742334946990329062375689088571504379753836440int);
    lemma_square_root_step(g, 140, p);
    assert(fmul(2523036465503331824291700663027742334946990329062375689088571504379753836440int, 2523036465503331824291700663027742334946990329062375689088571504379753836440int, p) == 2527183036984815016744000625222054277062770685226403781468864737469020187128int);
    lemma_square_root_step(g, 141, p);
    assert(fmul(2527183036984815016744000625222054277062770685226403781468864737469020187128int, 2527183036984815016744000625222054277062770685226403781468864737469020187128int, p) == 919795520307952071197775173307960234359869571875011474690616553999613247488int);
    lemma_square_root_step(g, 142, p);
    assert(fmul(919795520307952071197775173307960234359869571875011474690616553999613247488int, 919795520307952071197775173307960234359869571875011474690616553999613247488int, p) == 1154804668108513991516968076214883392483580875290749727155826857065449792160int);
    lemma_square_root_step(g, 143, p);
    assert(fmul(1154804668108513991516968076214883392483580875290749727155826857065449792160int, 1154804668108513991516968076214883392483580875290749727155826857065449792160int, p) == 1374927983041104569048711644287044720861432102729607324204792234194188899468int);
    lemma_square_root_step(g, 144, p);
    assert(fmul(1374927983041104569048711644287044720861432102729607324204792234194188899468int, 1374927983041104569048711644287044720861432102729607324204792234194188899468int, p) == 258103283284781341314469267289850711163274146460948323705525695890615138079int);
    lemma_square_root_step(g, 145, p);
    assert(fmul(258103283284781341314469267289850711163274146460948323705525695890615138079int, 258103283284781341314469267289850711163274146460948323705525695890615138079int, p) == 3596371882406329793708031568772227224523684274103878388370272184624981539717int);
    lemma_square_root_step(g, 146, p);
    assert(fmul(3596371882406329793708031568772227224523684274103878388370272184624981539717int, 3596371882406329793708031568772227224523684274103878388370272184624981539717int, p) == 2695871979792953617670148970020986204632052477932492867810013195217420461349int);
    lemma_square_root_step(g, 147, p);
    assert(fmul(2695871979792953617670148970020986204632052477932492867810013195217420461349int, 2695871979792953617670148970020986204632052477932492867810013195217420461349int, p) == 1863733278740973194163756545799723946771511809583317358157512329734386686923int);
    lemma_square_root_step(g, 148, p);
    assert(fmul(1863733278740973194163756545799723946771511809583317358157512329734386686923int, 1863733278740973194163756545799723946771511809583317358157512329734386686923int, p) == 1252390754480737609759263423229120633834933730806128638489941661241229245874int);
    lemma_square_root_step(g, 149, p);
    assert(fmul(1252390754480737609759263423229120633834933730806128638489941661241229245874int, 1252390754480737609759263423229120633834933730806128638489941661241229245874int, p) == 1633986134005522519322187923991050763446810897812851642310219297408414537251int);
    lemma_square_root_step(g, 150, p);
    assert(fmul(1633986134005522519322187923991050763446810897812851642310219297408414537251int, 1633986134005522519322187923991050763446810897812851642310219297408414537251int, p) == 1113178875901063824114491316322134568819036656652349859636841782522226248574int);
    lemma_square_root_step(g, 151, p);
    assert(fmul(1113178875901063824114491316322134568819036656652349859636841782522226248574int, 1113178875901063824114491316322134568819036656652349859636841782522226248574int, p) == 2906900852430684062390926451259176974067077572549905960490047220876289299432int);
    lemma_square_root_step(g, 152, p);
    assert(fmul(2906900852430684062390926451259176974067077572549905960490047220876289299432int, 2906900852430684062390926451259176974067077572549905960490047220876289299432int, p) == 1228377489451803944018088163855314357279724181397983909230230209751946417297int);
    lemma_square_root_step(g, 153, p);
    assert(fmul(1228377489451803944018088163855314357279724181397983909230230209751946417297int, 1228377489451803944018088163855314357279724181397983909230230209751946417297int, p) == 3369014874615264335762679988973596847293764463839558888117740086607762124880int);
    lemma_square_root_step(g, 154, p);
    assert(fmul(3369014874615264335762679988973596847293764463839558888117740086607762124880int, 3369014874615264335762679988973596847293764463839558888117740086607762124880int, p) == 454079519889002904682209345449797907472578748695945936400062271067395487940int);
    lemma_square_root_step(g, 155, p);
    assert(fmul(454079519889002904682209345449797907472578748695945936400062271067395487940int, 454079519889002904682209345449797907472578748695945936400062271067395487940int, p) == 2950383176193724615112287384582509849137136957308062730961080641938595911420int);
    lemma_square_root_step(g, 156, p);
    assert(fmul(2950383176193724615112287384582509849137136957308062730961080641938595911420int, 2950383176193724615112287384582509849137136957308062730961080641938595911420int, p) == 1006329975307025002475249161764122658755480765313891654513575010964327679171int);
    lemma_square_root_step(g, 157, p);
    assert(fmul(1006329975307025002475249161764122658755480765313891654513575010964327679171int, 1006329975307025002475249161764122658755480765313891654513575010964327679171int, p) == 3496343910150381292206254102533302429424041792343847657836742260001703242030int);
    lemma_square_root_step(g, 158, p);
    assert(fmul(3496343910150381292206254102533302429424041792343847657836742260001703242030int, 3496343910150381292206254102533302429424041792343847657836742260001703242030int, p) == 633917693793491093438410342303993577239887880640455835956139233879323505096int);
    lemma_square_root_step(g, 159, p);
    assert(fmul(633917693793491093438410342303993577239887880640455835956139233879323505096int, 633917693793491093438410342303993577239887880640455835956139233879323505096int, p) == 2274283650448687101415851970593711626031105468891204880928373412733104589202int);
}

#[verifier::rlimit(60)]
proof fn lemma_fp252_root_squares_6()
    requires
        fpow(fp252::root(), pow2(160), fp252::modulus()) == 2274283650448687101415851970593711626031105468891204880928373412733104589202int,
    ensures
        fpow(fp252::root(), pow2(191), fp252::modulus()) == 3618502788666131213697322783095070105623107215331596699973092056135872020480int,
{
    let g = fp252::root();
    let p = fp252::modulus();
    lemma_square_root_step(g, 160, p);
    assert(fmul(2274283650448687101415851970593711626031105468891204880928373412733104589202int, 2274283650448687101415851970593711626031105468891204880928373412733104589202int, p) == 2732875990783618332335579120230593087094077780499501830257604862680528012567int);
    lemma_square_root_step(g, 161, p);
    assert(fmul(2732875990783618332335579120230593087094077780499501830257604862680528012567int, 2732875990783618332335579120230593087094077780499501830257604862680528012567int, p) == 982134047660929852025779334629405023337767392320059971064889431375340329140int);
    lemma_square_root_step(g, 162, p);
    assert(fmul(982134047660929852025779334629405023337767392320059971064889431375340329140int, 982134047660929852025779334629405023337767392320059971064889431375340329140int, p) == 2671243574039810951864803898612677122151470397775922046811652824862597083452int);
    lemma_square_root_step(g, 163, p);
    assert(fmul(2671243574039810951864803898612677122151470397775922046811652824862597083452int, 2671243574039810951864803898612677122151470397775922046811652824862597083452int, p) == 2477957756265675706094135298666630427179608442630851423724318940933526921977int);
    lemma_square_root_step(g, 164, p);
    assert(fmul(2477957756265675706094135298666630427179608442630851423724318940933526921977int, 2477957756265675706094135298666630427179608442630851423724318940933526921977int, p) == 876922266912309748724099425703447978111447376928886119793644184598497690063int);
    lemma_square_root_step(g, 165, p);
    assert(fmul(876922266912309748724099425703447978111447376928886119793644184598497690063int, 876922266912309748724099425703447978111447376928886119793644184598497690063int, p) == 1740032260176861730069282301706899931803609121779848595553493302998775290819int);
    lemma_square_root_step(g, 166, p);
    assert(fmul(1740032260176861730069282301706899931803609121779848595553493302998775290819int, 1740032260176861730069282301706899931803609121779848595553493302998775290819int, p) == 3125382754445177052723936368432116465243259141967510926474057405479550226428int);
    lemma_square_root_step(g, 167, p);
    assert(fmul(3125382754445177052723936368432116465243259141967510926474057405479550226428int, 3125382754445177052723936368432116465243259141967510926474057405479550226428int, p) == 3212622950840765133933709657845517377320982515761066354075737946972812045746int);
    lemma_square_root_step(g, 168, p);
    assert(fmul(3212622950840765133933709657845517377320982515761066354075737946972812045746int, 3212622950840765133933709657845517377320982515761066354075737946972812045746int, p) == 461625156185106109674757843869089899645188733783009008020560400212434869224int);
    lemma_square_root_step(g, 169, p);
    assert(fmul(461625156185106109674757843869089899645188733783009008020560400212434869224int, 461625156185106109674757843869089899645188733783009008020560400212434869224int, p) == 1760167608450351411175491059251246920596160626412255333011233334102270291787int);
    lemma_square_root_step(g, 170, p);
    assert(fmul(1760167608450351411175491059251246920596160626412255333011233334102270291787int, 1760167608450351411175491059251246920596160626412255333011233334102270291787int, p) == 884767640635888335079619399138397816824468332068211437205303391566300183736int);
    lemma_square_root_step(g, 171, p);
    assert(fmul(884767640635888335079619399138397816824468332068211437205303391566300183736int, 884767640635888335079619399138397816824468332068211437205303391566300183736int, p) == 2524373679629943969694315332668304401069069270208147504317031858433177217055int);
    lemma_square_root_step(g, 172, p);
    assert(fmul(2524373679629943969694315332668304401069069270208147504317031858433177217055int, 2524373679629943969694315332668304401069069270208147504317031858433177217055int, p) == 1276259529452344066087051760234356737143210822436609816392252937419502561755int);
    lemma_square_root_step(g, 173, p);
    assert(fmul(1276259529452344066087051760234356737143210822436609816392252937419502561755int, 1276259529452344066087051760234356737143210822436609816392252937419502561755int, p) == 2018678091584329218435280089678148721952597162209143564155364750690020073542int);
    lemma_square_root_step(g, 174, p);
    assert(fmul(2018678091584329218435280089678148721952597162209143564155364750690020073542int, 2018678091584329218435280089678148721952597162209143564155364750690020073542int, p) == 3008896061661996704389990101929484883829232035463363036227102979064119803820int);
    lemma_square_root_step(g, 175, p);
    assert(fmul(3008896061661996704389990101929484883829232035463363036227102979064119803820int, 3008896061661996704389990101929484883829232035463363036227102979064119803820int, p) == 868277774033475215476395060850907016745523396068173821916757070607579717033int);
    lemma_square_root_step(g, 176, p);
    assert(fmul(868277774033475215476395060850907016745523396068173821916757070607579717033int, 868277774033475215476395060850907016745523396068173821916757070607579717033int, p) == 1490096455520052234184227906934233732167884042058884987838510110322811434080int);
    lemma_square_root_step(g, 177, p);
    assert(fmul(1490096455520052234184227906934233732167884042058884987838510110322811434080int, 1490096455520052234184227906934233732167884042058884987838510110322811434080int, p) == 1617791213734658136968748589722407098633951096380418940975101280625155408609int);
    lemma_square_root_step(g, 178, p);
    assert(fmul(1617791213734658136968748589722407098633951096380418940975101280625155408609int, 1617791213734658136968748589722407098633951096380418940975101280625155408609int, p) == 1533340560886622357184336952203971929989931006618142264948672762036027043885int);
    lemma_square_root_step(g, 179, p);
    assert(fmul(1533340560886622357184336952203971929989931006618142264948672762036027043885int, 1533340560886622357184336952203971929989931006618142264948672762036027043885int, p) == 107921729611698366527568132789226143223411882538548396875627203627394603135int);
    lemma_square_root_step(g, 180, p);
    assert(fmul(107921729611698366527568132789226143223411882538548396875627203627394603135int, 107921729611698366527568132789226143223411882538548396875627203627394603135int, p) == 479350917366973328867231618769870247883647010050794749859407019189500839696int);
    lemma_square_root_step(g, 181, p);
    assert(fmul(479350917366973328867231618769870247883647010050794749859407019189500839696int, 479350917366973328867231618769870247883647010050794749859407019189500839696int, p) == 2872618801630522944228933398573680209863705690227914327550521950087758333169int);
    lemma_square_root_step(g, 182, p);
    assert(fmul(2872618801630522944228933398573680209863705690227914327550521950087758333169int, 2872618801630522944228933398573680209863705690227914327550521950087758333169int, p) == 503605588685115615492164649363646553713524688081596594798612835801738386699int);
    lemma_square_root_step(g, 183, p);
    assert(fmul(503605588685115615492164649363646553713524688081596594798612835801738386699int, 503605588685115615492164649363646553713524688081596594798612835801738386699int, p) == 355459239873039554746754348566197485723154649641346812441506253094066631495int);
    lemma_square_root_step(g, 184, p);
    assert(fmul(355459239873039554746754348566197485723154649641346812441506253094066631495int, 355459239873039554746754348566197485723154649641346812441506253094066631495int, p) == 27902509089891984638895139203459090191082442476177253201387137074461340175int);
    lemma_square_root_step(g, 185, p);
    assert(fmul(27902509089891984638895139203459090191082442476177253201387137074461340175int, 27902509089891984638895139203459090191082442476177253201387137074461340175int, p) == 524650022574296031033701339672259635908291236977496998655060095531066865509int);
    lemma_square_root_step(g, 186, p);
    assert(fmul(524650022574296031033701339672259635908291236977496998655060095531066865509int, 524650022574296031033701339672259635908291236977496998655060095531066865509int, p) == 3409443867035641044245057348756544640549407421541289951053907001322227935403int);
    lemma_square_root_step(g, 187, p);
    assert(fmul(3409443867035641044245057348756544640549407421541289951053907001322227935403int, 3409443867035641044245057348756544640549407421541289951053907001322227935403int, p) == 2679026602897868112349604024891625875968950767352485125058791696935099163961int);
    lemma_square_root_step(g, 188, p);
    assert(fmul(2679026602897868112349604024891625875968950767352485125058791696935099163961int, 2679026602897868112349604024891625875968950767352485125058791696935099163961int, p) == 2804690217475462062143361339624939640984649667966511418446363596075299761851int);
    lemma_square_root_step(g, 189, p);
    assert(fmul(2804690217475462062143361339624939640984649667966511418446363596075299761851int, 2804690217475462062143361339624939640984649667966511418446363596075299761851int, p) == 2779265777490745486907812647164038750808419677710890077123925563301162072035int);
    lemma_square_root_step(g, 190, p);
    assert(fmul(2779265777490745486907812647164038750808419677710890077123925563301162072035int, 2779265777490745486907812647164038750808419677710890077123925563301162072035int, p) == 3618502788666131213697322783095070105623107215331596699973092056135872020480int);
}

/// In the 252-bit field `G` raised to `2^191` is minus one.
pub proof fn lemma_fp252_root_squares()
    ensures
        fpow(fp252::root(), pow2(191), fp252::modulus()) == fp252::modulus() - 1,
{
    let g = fp252::root();
    let p = fp252::modulus();
    lemma2_to64();
    lemma_pow1(g);
    lemma_small_mod(g as nat, p as nat);
    assert(fpow(g, pow2(0), p) == 145784604816374866144131285430889962727208297722245411306711449302875041684int);
    lemma_fp252_root_squares_1();
    lemma_fp252_root_squares_2();
    lemma_fp252_root_squares_3();
    lemma_fp252_root_squares_4();
    lemma_fp252_root_squares_5();
    lemma_fp252_root_squares_6();
}

/// The roots of unity of the 252-bit field have the orders they are handed
/// out for: the root of order `2^n`, which is `G` squared `192 - n` times, is one
/// when raised to `2^n`, and is not when raised to `2^(n - 1)`.
pub proof fn lemma_fp252_root_of_unity(n: nat)
    requires
        1 <= n <= 192,
    ensures
        fpow(fpow(fp252::root(), pow2((192 - n) as nat), fp252::modulus()), pow2(n), fp252::modulus()) == 1,
        fpow(fpow(fp252::root(), pow2((192 - n) as nat), fp252::modulus()), pow2((n - 1) as nat), fp252::modulus()) != 1,
{
    lemma_fp252_root_squares();
    lemma_root_order(fp252::root(), 192, n, fp252::modulus());
}

} // verus!
