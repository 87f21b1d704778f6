//! Every nonzero element of the 128-bit field has an inverse.
//!
//! The residue `3` has the order `M - 1`: raised to `M - 1` it is one, and raised to
//! `(M - 1) / s` it is not, for each of the primes `s` that divide
//! `M - 1 = 2^40 * 29 * 181 * 286619 * 11394379 * 18053749339`. So its powers are all the nonzero
//! residues. The powers that show this are reached by squaring and multiplying,
//! one step after the other, and are listed here with the steps.

use vstd::prelude::*;
use vstd::arithmetic::div_mod::lemma_fundamental_div_mod_converse;
use vstd::arithmetic::power::lemma_pow_positive;
use vstd::arithmetic::power2::{pow2, lemma_pow2, lemma2_to64, lemma2_to64_rest};
use crate::field::modular::{fpow, is_unit};
use crate::field::number_theory::{
    divides, is_prime, is_order, lemma_all_units, lemma_euclid, lemma_fpow_mul, lemma_full_order,
    lemma_power_first, lemma_power_square, lemma_power_square_times, lemma_prime_by_trial,
    lemma_prime_divides_power_of_two, lemma_prime_divides_prime, lemma_units_make_prime,
};
use crate::field::roots::lemma_fp128_root_squares;
use crate::field::fp128::{G, M};

verus! {

/// The residue whose powers are all the nonzero residues.
pub const GENERATOR: u128 = 3;

/// The odd part of `M - 1`.
pub const ODD_PART: u128 = 309485009821345068724781011;

/// `GENERATOR` raised to `2^40`.
pub const TWO_POWER: u128 = 188219469409738621825101300839109888783;

/// No number from two up to the square root of `29` divides it.
proof fn lemma_trial_29(c: u32)
    requires
        2 <= c < 6,
    ensures
        29u32 % c != 0,
{
    assert(2 <= c && c < 6 ==> 29u32 % c != 0) by (bit_vector);
}

/// `29` is a prime.
pub proof fn lemma_prime_29()
    ensures
        is_prime(29),
{
    assert forall|c: int| 2 <= c < 6 implies !#[trigger] divides(c, 29) by {
        lemma_trial_29(c as u32);
    }
    lemma_prime_by_trial(29, 6);
}

/// No number from two up to the square root of `181` divides it.
proof fn lemma_trial_181(c: u32)
    requires
        2 <= c < 14,
    ensures
        181u32 % c != 0,
{
    assert(2 <= c && c < 14 ==> 181u32 % c != 0) by (bit_vector);
}

/// `181` is a prime.
pub proof fn lemma_prime_181()
    ensures
        is_prime(181),
{
    assert forall|c: int| 2 <= c < 14 implies !#[trigger] divides(c, 181) by {
        lemma_trial_181(c as u32);
    }
    lemma_prime_by_trial(181, 14);
}

/// No number from two up to the square root of `286619` divides it.
proof fn lemma_trial_286619(c: u32)
    requires
        2 <= c < 536,
    ensures
        286619u32 % c != 0,
{
    assert(2 <= c && c < 536 ==> 286619u32 % c != 0) by (bit_vector);
}

/// `286619` is a prime.
pub proof fn lemma_prime_286619()
    ensures
        is_prime(286619),
{
    assert forall|c: int| 2 <= c < 536 implies !#[trigger] divides(c, 286619) by {
        lemma_trial_286619(c as u32);
    }
    lemma_prime_by_trial(286619, 536);
}

/// No number from two up to the square root of `11394379` divides it.
proof fn lemma_trial_11394379(c: u32)
    requires
        2 <= c < 3376,
    ensures
        11394379u32 % c != 0,
{
    assert(2 <= c && c < 3376 ==> 11394379u32 % c != 0) by (bit_vector);
}

/// `11394379` is a prime.
pub proof fn lemma_prime_11394379()
    ensures
        is_prime(11394379),
{
    assert forall|c: int| 2 <= c < 3376 implies !#[trigger] divides(c, 11394379) by {
        lemma_trial_11394379(c as u32);
    }
    lemma_prime_by_trial(11394379, 3376);
}

/// No number from two up to the square root of `18053749339` divides it.
#[verifier::rlimit(100)]
proof fn lemma_trial_18053749339(c: u64)
    requires
        2 <= c < 134365,
    ensures
        18053749339u64 % c != 0,
{
    assert(2 <= c && c < 32770 ==> 18053749339u64 % c != 0) by (bit_vector);
    assert(32770 <= c && c < 65538 ==> 18053749339u64 % c != 0) by (bit_vector);
    assert(65538 <= c && c < 98306 ==> 18053749339u64 % c != 0) by (bit_vector);
    assert(98306 <= c && c < 131074 ==> 18053749339u64 % c != 0) by (bit_vector);
    assert(131074 <= c && c < 134365 ==> 18053749339u64 % c != 0) by (bit_vector);
}

/// `18053749339` is a prime.
pub proof fn lemma_prime_18053749339()
    ensures
        is_prime(18053749339),
{
    assert forall|c: int| 2 <= c < 134365 implies !#[trigger] divides(c, 18053749339) by {
        lemma_trial_18053749339(c as u64);
    }
    lemma_prime_by_trial(18053749339, 134365);
}

/// `GENERATOR` raised to `2^40`, by 40 squarings.
#[verifier::rlimit(100)]
proof fn lemma_two_power()
    ensures
        fpow(GENERATOR as int, 1099511627776, M as int) == TWO_POWER,
{
    let p = M as int;
    lemma_power_first(3, p);
    lemma_power_square(3, p, 1, 3, 9);
    lemma_power_square(3, p, 2, 9, 81);
    lemma_power_square(3, p, 4, 81, 6561);
    lemma_power_square(3, p, 8, 6561, 43046721);
    lemma_power_square(3, p, 16, 43046721, 1853020188851841);
    lemma_power_square(3, p, 32, 1853020188851841, 3433683820292512484657849089281);
    lemma_power_square(3, p, 64, 3433683820292512484657849089281, 305238141795109073555657301294780599058int);
    lemma_power_square(3, p, 128, 305238141795109073555657301294780599058int, 28669072966301739834938985542768661990);
    lemma_power_square(3, p, 256, 28669072966301739834938985542768661990, 14307428894239657192310686515251232855);
    lemma_power_square(3, p, 512, 14307428894239657192310686515251232855, 223281823566950874644987663378075116826int);
    lemma_power_square(3, p, 1024, 223281823566950874644987663378075116826int, 57420979408558868999616120076975205586);
    lemma_power_square(3, p, 2048, 57420979408558868999616120076975205586, 232074020156408230659364814115432489363int);
    lemma_power_square(3, p, 4096, 232074020156408230659364814115432489363int, 155642914463356540867491427359033929537);
    lemma_power_square(3, p, 8192, 155642914463356540867491427359033929537, 256359062034339669608071027076062693533int);
    lemma_power_square(3, p, 16384, 256359062034339669608071027076062693533int, 54076975429272964727075431346533646275);
    lemma_power_square(3, p, 32768, 54076975429272964727075431346533646275, 272073515016938868490153265605723934717int);
    lemma_power_square(3, p, 65536, 272073515016938868490153265605723934717int, 217385309839534604090417134171545885052int);
    lemma_power_square(3, p, 131072, 217385309839534604090417134171545885052int, 308158192677775603132508074926662070419int);
    lemma_power_square(3, p, 262144, 308158192677775603132508074926662070419int, 245978162918292885988943217976831964295int);
    lemma_power_square(3, p, 524288, 245978162918292885988943217976831964295int, 72940063495476708694496289429546142103);
    lemma_power_square(3, p, 1048576, 72940063495476708694496289429546142103, 39949277093166520002098564888577607989);
    lemma_power_square(3, p, 2097152, 39949277093166520002098564888577607989, 298023929804240552289069723062572689061int);
    lemma_power_square(3, p, 4194304, 298023929804240552289069723062572689061int, 335491454650297372293392770408535827381int);
    lemma_power_square(3, p, 8388608, 335491454650297372293392770408535827381int, 135031437439070765029235186069981311175);
    lemma_power_square(3, p, 16777216, 135031437439070765029235186069981311175, 277418906419381405123068242414753088368int);
    lemma_power_square(3, p, 33554432, 277418906419381405123068242414753088368int, 115465429369389230181186351777366466676);
    lemma_power_square(3, p, 67108864, 115465429369389230181186351777366466676, 64830691030744338235372779006854359781);
    lemma_power_square(3, p, 134217728, 64830691030744338235372779006854359781, 165014547013669121404344013685394339687);
    lemma_power_square(3, p, 268435456, 165014547013669121404344013685394339687, 43309458944127637788401329664487539403);
    lemma_power_square(3, p, 536870912, 43309458944127637788401329664487539403, 122037578697254853189182167907623826258);
    lemma_power_square(3, p, 1073741824, 122037578697254853189182167907623826258, 97962453095261054963082999681262055082);
    lemma_power_square(3, p, 2147483648, 97962453095261054963082999681262055082, 64451456163570718535302377936651977569);
    lemma_power_square(3, p, 4294967296, 64451456163570718535302377936651977569, 202135395438106794347287246145383215365int);
    lemma_power_square(3, p, 8589934592, 202135395438106794347287246145383215365int, 236341695245293399789821340649919457526int);
    lemma_power_square(3, p, 17179869184, 236341695245293399789821340649919457526int, 271710687538713359935816525058536470816int);
    lemma_power_square(3, p, 34359738368, 271710687538713359935816525058536470816int, 153152855105814379779691633634238178918);
    lemma_power_square(3, p, 68719476736, 153152855105814379779691633634238178918, 219481012060313831425942899370384245053int);
    lemma_power_square(3, p, 137438953472, 219481012060313831425942899370384245053int, 191762285899228950272356914918608076767int);
    lemma_power_square(3, p, 274877906944, 191762285899228950272356914918608076767int, 31199641007248568287956737155547540111);
    lemma_power_square(3, p, 549755813888, 31199641007248568287956737155547540111, 188219469409738621825101300839109888783int);
}

#[verifier::rlimit(60)]
proof fn lemma_generator_to_root_part_1()
    requires
        fpow(GENERATOR as int, 1, M as int) == 3,
    ensures
        fpow(GENERATOR as int, 131071, M as int) == 185889225586824355851263897375096948863int,
{
    let p = M as int;
    lemma_power_square_times(3, p, 1, 3, 9, 27);
    lemma_power_square_times(3, p, 3, 27, 729, 2187);
    lemma_power_square_times(3, p, 7, 2187, 4782969, 14348907);
    lemma_power_square_times(3, p, 15, 14348907, 205891132094649, 617673396283947);
    lemma_power_square_times(3, p, 31, 617673396283947, 381520424476945831628649898809, 1144561273430837494885949696427);
    lemma_power_square_times(3, p, 63, 1144561273430837494885949696427, 33915349088345452617295255699420066562, 101746047265036357851885767098260199686);
    lemma_power_square_times(3, p, 127, 101746047265036357851885767098260199686, 230040363832436946735020703696137603468int, 9556357655433913278312995180922887330);
    lemma_power_square_times(3, p, 255, 9556357655433913278312995180922887330, 1589714321582184132478965168361248095, 4769142964746552397436895505083744285);
    lemma_power_square_times(3, p, 511, 4769142964746552397436895505083744285, 100427395267647533507970753253951671100, 301282185802942600523912259761855013300int);
    lemma_power_square_times(3, p, 1023, 301282185802942600523912259761855013300int, 6380108823173207666624013341886133954, 19140326469519622999872040025658401862);
    lemma_power_square_times(3, p, 2047, 19140326469519622999872040025658401862, 25786002239600914517707201568381387707, 77358006718802743553121604705144163121);
    lemma_power_square_times(3, p, 4095, 77358006718802743553121604705144163121, 92911960922803718643804504807391539179, 278735882768411155931413514422174617537int);
    lemma_power_square_times(3, p, 8191, 278735882768411155931413514422174617537int, 28484340226037741067563447452895854837, 85453020678113223202690342358687564511);
    lemma_power_square_times(3, p, 16383, 85453020678113223202690342358687564511, 157245160345891868731174851462390388047, 131453114116737142730149996433426202604);
    lemma_power_square_times(3, p, 32767, 131453114116737142730149996433426202604, 105848694317646199490766931279245984199, 317546082952938598472300793837737952597int);
    lemma_power_square_times(3, p, 65535, 317546082952938598472300793837737952597int, 175390530835920939771546151776280636800int, 185889225586824355851263897375096948863int);
}

#[verifier::rlimit(60)]
proof fn lemma_generator_to_root_part_2()
    requires
        fpow(GENERATOR as int, 131071, M as int) == 185889225586824355851263897375096948863int,
    ensures
        fpow(GENERATOR as int, 8589934591, M as int) == 294233376426661240424678787350957712813int,
{
    let p = M as int;
    lemma_power_square_times(3, p, 131071, 185889225586824355851263897375096948863int, 336713014227253701204389393172957973635int, 329574308839884176686419063611383997831int);
    lemma_power_square_times(3, p, 262143, 329574308839884176686419063611383997831int, 27330906990921431776549246441870218255, 81992720972764295329647739325610654765);
    lemma_power_square_times(3, p, 524287, 81992720972764295329647739325610654765, 83722755259705959513471711704115118353, 251168265779117878540415135112345355059int);
    lemma_power_square_times(3, p, 1048575, 251168265779117878540415135112345355059int, 4438808565907391111344284987619734221, 13316425697722173334032854962859202663);
    lemma_power_square_times(3, p, 2097151, 13316425697722173334032854962859202663, 297777833138978866281410180970976379980int, 212768765575059671917481427005439216866int);
    lemma_power_square_times(3, p, 4194303, 212768765575059671917481427005439216866int, 75085980174581759528529703151364532102, 225257940523745278585589109454093596306int);
    lemma_power_square_times(3, p, 8388607, 225257940523745278585589109454093596306int, 204049252449307009149567552870967346540int, 271865390426982563985328100659157078083int);
    lemma_power_square_times(3, p, 16777215, 271865390426982563985328100659157078083int, 219870082336008191382215670242608655117int, 319327880087086110683272452774081003814int);
    lemma_power_square_times(3, p, 33554431, 319327880087086110683272452774081003814int, 315302707192988548654242535045258462108int, 265343387737088719035978489228285463250int);
    lemma_power_square_times(3, p, 67108863, 265343387737088719035978489228285463250int, 82821713874735696129124654990482698095, 248465141624207088387373964971448094285int);
    lemma_power_square_times(3, p, 134217727, 248465141624207088387373964971448094285int, 131762405308498279088274187505181024922, 55004849004556373801448004561798113229);
    lemma_power_square_times(3, p, 268435455, 55004849004556373801448004561798113229, 4812162104903070865377925518276393267, 14436486314709212596133776554829179801);
    lemma_power_square_times(3, p, 536870911, 14436486314709212596133776554829179801, 316032946007195840099575403504175946506int, 267534104179710593371977094605037916444int);
    lemma_power_square_times(3, p, 1073741823, 267534104179710593371977094605037916444int, 237739628291210203971481149711525758256int, 32654151031753684987694333227087351694);
    lemma_power_square_times(3, p, 2147483647, 32654151031753684987694333227087351694, 271825336067793329197658253734762967592int, 134911274361503060666225645296798979702);
    lemma_power_square_times(3, p, 4294967295, 134911274361503060666225645296798979702, 98077792142220413474892929116985904271, 294233376426661240424678787350957712813int);
}

#[verifier::rlimit(60)]
proof fn lemma_generator_to_root_part_3()
    requires
        fpow(GENERATOR as int, 8589934591, M as int) == 294233376426661240424678787350957712813int,
    ensures
        fpow(GENERATOR as int, 562949953421311, M as int) == 166637060371636961533213786335844978048,
{
    let p = M as int;
    lemma_power_square_times(3, p, 8589934591, 294233376426661240424678787350957712813int, 328733403401422345277424200475542127758int, 305635476362390108905523485519136460200int);
    lemma_power_square_times(3, p, 17179869183, 305635476362390108905523485519136460200int, 30190076393190373326201836117615163424, 90570229179571119978605508352845490272);
    lemma_power_square_times(3, p, 34359738367, 90570229179571119978605508352845490272, 54826135780750315915896243509775904495, 164478407342250947747688730529327713485);
    lemma_power_square_times(3, p, 68719476735, 164478407342250947747688730529327713485, 326859994158646837681437707000038215261int, 300015248634063586117564005092624722709int);
    lemma_power_square_times(3, p, 137438953471, 300015248634063586117564005092624722709int, 96925224415678430799900670091788666649, 290775673247035292399702010275365999947int);
    lemma_power_square_times(3, p, 274877906943, 290775673247035292399702010275365999947int, 305939841819417363999439244531723025823int, 237254791616375165071568617687679154395int);
    lemma_power_square_times(3, p, 549755813887, 237254791616375165071568617687679154395int, 20913274378859846869455700093234432087, 62739823136579540608367100279703296261);
    lemma_power_square_times(3, p, 1099511627775, 62739823136579540608367100279703296261, 8370814888602402971912792621825959289, 25112444665807208915738377865477877867);
    lemma_power_square_times(3, p, 2199023255551, 25112444665807208915738377865477877867, 239691962190284718265554999005245312766int, 38511152728977227869915881108246015224);
    lemma_power_square_times(3, p, 4398046511103, 38511152728977227869915881108246015224, 295942253625391296432655154836868839086int, 207262027034296962371216348603116594184int);
    lemma_power_square_times(3, p, 8796093022207, 207262027034296962371216348603116594184int, 74983713897727084237596386531710394432, 224951141693181252712789159595131183296int);
    lemma_power_square_times(3, p, 17592186044415, 224951141693181252712789159595131183296int, 31963059592047897116802970907275211567, 95889178776143691350408912721825634701);
    lemma_power_square_times(3, p, 35184372088831, 95889178776143691350408912721825634701, 198804489561918077692120572206146845791int, 256131101764815769612987158664695575836int);
    lemma_power_square_times(3, p, 70368744177663, 256131101764815769612987158664695575836int, 43650868755035321355413848030752349472, 130952606265105964066241544092257048416);
    lemma_power_square_times(3, p, 140737488355327, 130952606265105964066241544092257048416, 106143210808993024696048912663209021967, 318429632426979074088146737989627065901int);
    lemma_power_square_times(3, p, 281474976710655, 318429632426979074088146737989627065901int, 168973142430858474998862781429863313195, 166637060371636961533213786335844978048);
}

#[verifier::rlimit(60)]
proof fn lemma_generator_to_root_part_4()
    requires
        fpow(GENERATOR as int, 562949953421311, M as int) == 166637060371636961533213786335844978048,
    ensures
        fpow(GENERATOR as int, 36893488147419103231, M as int) == 146194671365230923023136864154066158981,
{
    let p = M as int;
    lemma_power_square_times(3, p, 562949953421311, 166637060371636961533213786335844978048, 51554037823542833215590646843254887704, 154662113470628499646771940529764663112);
    lemma_power_square_times(3, p, 1125899906842623, 154662113470628499646771940529764663112, 28439827924198218131333213444200335615, 85319483772594654393999640332601006845);
    lemma_power_square_times(3, p, 2251799813685247, 85319483772594654393999640332601006845, 46682600813569248712101349406250848949, 140047802440707746136304048218752546847);
    lemma_power_square_times(3, p, 4503599627370495, 140047802440707746136304048218752546847, 127356818907838249087021961102474484673, 41788089802576283797691325353678492482);
    lemma_power_square_times(3, p, 9007199254740991, 41788089802576283797691325353678492482, 103400985558382902832020446505450680794, 310202956675148708496061339516352042382int);
    lemma_power_square_times(3, p, 18014398509481983, 310202956675148708496061339516352042382int, 269390275355622217577141001983608485789int, 127606092224989725804673890043335534293);
    lemma_power_square_times(3, p, 36028797018963967, 127606092224989725804673890043335534293, 176892452007972237378192659486866009079int, 190394989102978248671203420506853065700int);
    lemma_power_square_times(3, p, 72057594037927935, 190394989102978248671203420506853065700int, 216526425254051491186893613369027017984int, 309296908841216010097306282153336092415int);
    lemma_power_square_times(3, p, 144115188075855871, 309296908841216010097306282153336092415int, 311406709656843805773215679236717983117int, 253655395128654490392897921802664026277int);
    lemma_power_square_times(3, p, 288230376151711743, 253655395128654490392897921802664026277int, 64886694386456532409983294373277092390, 194660083159369597229949883119831277170int);
    lemma_power_square_times(3, p, 576460752303423487, 194660083159369597229949883119831277170int, 310661517415105366354221426764618653899int, 251419818403439172135915164386366038623int);
    lemma_power_square_times(3, p, 1152921504606846975, 251419818403439172135915164386366038623int, 102489354512296141096357310294780805555, 307468063536888423289071930884342416665int);
    lemma_power_square_times(3, p, 2305843009213693951, 307468063536888423289071930884342416665int, 256681195164249288574412988136857982760int, 89478851650870938796489848503084025206);
    lemma_power_square_times(3, p, 4611686018427387903, 89478851650870938796489848503084025206, 78374041764081695211219446284888570738, 235122125292245085633658338854665712214int);
    lemma_power_square_times(3, p, 9223372036854775807, 235122125292245085633658338854665712214int, 24139499435298796094981488885893202963, 72418498305896388284944466657679608889);
    lemma_power_square_times(3, p, 18446744073709551615, 72418498305896388284944466657679608889, 48731557121743641007712288051355386327, 146194671365230923023136864154066158981);
}

#[verifier::rlimit(60)]
proof fn lemma_generator_to_root_part_5()
    requires
        fpow(GENERATOR as int, 36893488147419103231, M as int) == 146194671365230923023136864154066158981,
    ensures
        fpow(GENERATOR as int, 2417851639229258349412351, M as int) == 235322083272133194521673553109825808616int,
{
    let p = M as int;
    lemma_power_square_times(3, p, 36893488147419103231, 146194671365230923023136864154066158981, 225258632025282847331162161765253663554int, 335493529154910078530111927342016029125int);
    lemma_power_square_times(3, p, 73786976294838206463, 335493529154910078530111927342016029125int, 262176335326834335441472169737724746572int, 105964272138626079397667393305684316642);
    lemma_power_square_times(3, p, 147573952589676412927, 105964272138626079397667393305684316642, 253235507127983590753529111181412344557int, 79141787542073845333838217636747110597);
    lemma_power_square_times(3, p, 295147905179352825855, 79141787542073845333838217636747110597, 281805346717421789248830399046308454779int, 164851306310388440819742081231435441263);
    lemma_power_square_times(3, p, 590295810358705651711, 164851306310388440819742081231435441263, 53285911384046067490278096770500585989, 159857734152138202470834290311501757967);
    lemma_power_square_times(3, p, 1180591620717411303423, 159857734152138202470834290311501757967, 299822695693423089494323689542498033897int, 218903353238392341556221952720004178617int);
    lemma_power_square_times(3, p, 2361183241434822606847, 218903353238392341556221952720004178617int, 51716660707057713027379768143700607910, 155149982121173139082139304431101823730);
    lemma_power_square_times(3, p, 4722366482869645213695, 155149982121173139082139304431101823730, 106929781351907072487031491518764127055, 320789344055721217461094474556292381165int);
    lemma_power_square_times(3, p, 9444732965739290427391, 320789344055721217461094474556292381165int, 139487092867291726342697256578879549508, 78178911680936715564717211782893686987);
    lemma_power_square_times(3, p, 18889465931478580854783, 78178911680936715564717211782893686987, 47317192508979684740847466383951567953, 141951577526939054222542399151854703859);
    lemma_power_square_times(3, p, 37778931862957161709567, 141951577526939054222542399151854703859, 223973965651730574462890855695821197059int, 331639530034253259925298009133718629640int);
    lemma_power_square_times(3, p, 75557863725914323419135, 331639530034253259925298009133718629640int, 198074861371891931093124779632388298043int, 253942217194737329815999780943419932592int);
    lemma_power_square_times(3, p, 151115727451828646838271, 253942217194737329815999780943419932592int, 21313096620244808110102275146702927068, 63939289860734424330306825440108781204);
    lemma_power_square_times(3, p, 302231454903657293676543, 63939289860734424330306825440108781204, 187023766152533769206553849888915226375int, 220788931536662844156286991713000717588int);
    lemma_power_square_times(3, p, 604462909807314587353087, 220788931536662844156286991713000717588int, 10564042865800522303743220738379224580, 31692128597401566911229662215137673740);
    lemma_power_square_times(3, p, 1208925819614629174706175, 31692128597401566911229662215137673740, 191868150064357219328349370354523590051int, 235322083272133194521673553109825808616int);
}

#[verifier::rlimit(60)]
proof fn lemma_generator_to_root_part_6()
    requires
        fpow(GENERATOR as int, 2417851639229258349412351, M as int) == 235322083272133194521673553109825808616int,
    ensures
        fpow(GENERATOR as int, 309485009821345068724781011, M as int) == 23953097886125630542083529559205016746,
{
    let p = M as int;
    lemma_power_square_times(3, p, 2417851639229258349412351, 235322083272133194521673553109825808616int, 164033196777696501649380950022875437710, 151817223412151041484768292114881351593);
    lemma_power_square(3, p, 4835703278458516698824703, 151817223412151041484768292114881351593, 2816014053687730537599970571109477301);
    lemma_power_square_times(3, p, 9671406556917033397649406, 2816014053687730537599970571109477301, 327233631401163893885101186131564307301int, 301136160361614754728554442487202998829int);
    lemma_power_square(3, p, 19342813113834066795298813, 301136160361614754728554442487202998829int, 258057750284025093216043228760302361293int);
    lemma_power_square(3, p, 38685626227668133590597626, 258057750284025093216043228760302361293int, 125113519873290405625706910958349115825);
    lemma_power_square_times(3, p, 77371252455336267181195252, 125113519873290405625706910958349115825, 198465970601699715674901138609268223374int, 255115544884160683561328857874059708585int);
    lemma_power_square_times(3, p, 154742504910672534362390505, 255115544884160683561328857874059708585int, 7984365962041876847361176519735005582, 23953097886125630542083529559205016746);
}

/// `GENERATOR` raised to the odd part of `M - 1` is the root of unity `G`.
proof fn lemma_generator_to_root()
    ensures
        fpow(GENERATOR as int, 309485009821345068724781011, M as int) == 23953097886125630542083529559205016746,
{
    lemma_power_first(GENERATOR as int, M as int);
    lemma_generator_to_root_part_1();
    lemma_generator_to_root_part_2();
    lemma_generator_to_root_part_3();
    lemma_generator_to_root_part_4();
    lemma_generator_to_root_part_5();
    lemma_generator_to_root_part_6();
}

#[verifier::rlimit(60)]
proof fn lemma_power_without_29_part_1()
    requires
        fpow(TWO_POWER as int, 1, M as int) == 188219469409738621825101300839109888783int,
    ensures
        fpow(TWO_POWER as int, 72315, M as int) == 51611502163446903308488565992381426332,
{
    let p = M as int;
    lemma_power_square(188219469409738621825101300839109888783int, p, 1, 188219469409738621825101300839109888783int, 75337333997421626747215133596433633601);
    lemma_power_square(188219469409738621825101300839109888783int, p, 2, 75337333997421626747215133596433633601, 115533458186931683609747643324738045672);
    lemma_power_square(188219469409738621825101300839109888783int, p, 4, 115533458186931683609747643324738045672, 281503714181952423650274487855604821015int);
    lemma_power_square_times(188219469409738621825101300839109888783int, p, 8, 281503714181952423650274487855604821015int, 334571058158605294674992920831648588351int, 196284227277064110008777114978611382525int);
    lemma_power_square_times(188219469409738621825101300839109888783int, p, 17, 196284227277064110008777114978611382525int, 84672841342192219488508833378924148711, 294570362803420904297145082940259108353int);
    lemma_power_square(188219469409738621825101300839109888783int, p, 35, 294570362803420904297145082940259108353int, 123922447186970678824642276103723243594);
    lemma_power_square_times(188219469409738621825101300839109888783int, p, 70, 123922447186970678824642276103723243594, 289319673263380515678729585855936947556int, 81429717844389592120901684346815854584);
    lemma_power_square(188219469409738621825101300839109888783int, p, 141, 81429717844389592120901684346815854584, 295746333623572799818824564319696131204int);
    lemma_power_square(188219469409738621825101300839109888783int, p, 282, 295746333623572799818824564319696131204int, 244643206286894186724309268451265736933int);
    lemma_power_square_times(188219469409738621825101300839109888783int, p, 564, 244643206286894186724309268451265736933int, 308908773053830571745050167006400683796int, 331678710129487667693858234153343691273int);
    lemma_power_square_times(188219469409738621825101300839109888783int, p, 1129, 331678710129487667693858234153343691273int, 161527619552051478460802998219441395188, 235359623190272198068917277876215085412int);
    lemma_power_square_times(188219469409738621825101300839109888783int, p, 2259, 235359623190272198068917277876215085412int, 327908274516023120151155475988685317362int, 330734584750987005570787316428480852016int);
    lemma_power_square_times(188219469409738621825101300839109888783int, p, 4519, 330734584750987005570787316428480852016int, 29399629665432538539412391620461596049, 230600347246838278837397970618302328177int);
    lemma_power_square(188219469409738621825101300839109888783int, p, 9039, 230600347246838278837397970618302328177int, 250449084825659057184382563690469523373int);
    lemma_power_square_times(188219469409738621825101300839109888783int, p, 18078, 250449084825659057184382563690469523373int, 123981864168867919433124283693926045221, 60298160296474871013234027445155761227);
    lemma_power_square_times(188219469409738621825101300839109888783int, p, 36157, 60298160296474871013234027445155761227, 199435074769713576524162774842774538583int, 51611502163446903308488565992381426332);
}

#[verifier::rlimit(60)]
proof fn lemma_power_without_29_part_2()
    requires
        fpow(TWO_POWER as int, 72315, M as int) == 51611502163446903308488565992381426332,
    ensures
        fpow(TWO_POWER as int, 4739274257, M as int) == 196376008802824698691552363971750976414int,
{
    let p = M as int;
    lemma_power_square_times(188219469409738621825101300839109888783int, p, 72315, 51611502163446903308488565992381426332, 322699636735349518186587813176802727861int, 221326309238615146922095623693839538803int);
    lemma_power_square(188219469409738621825101300839109888783int, p, 144631, 221326309238615146922095623693839538803int, 13757542417551559301721471441609134112);
    lemma_power_square(188219469409738621825101300839109888783int, p, 289262, 13757542417551559301721471441609134112, 82244864757205647473334372690370266414);
    lemma_power_square_times(188219469409738621825101300839109888783int, p, 578524, 82244864757205647473334372690370266414, 30156456373411344838372372117099804924, 291884737437053862373570212987707684053int);
    lemma_power_square(188219469409738621825101300839109888783int, p, 1157049, 291884737437053862373570212987707684053int, 281448880516238510894294785400861509702int);
    lemma_power_square_times(188219469409738621825101300839109888783int, p, 2314098, 281448880516238510894294785400861509702int, 284774118655850646195048324291224984698int, 91690807960650018916712720315580962689);
    lemma_power_square_times(188219469409738621825101300839109888783int, p, 4628197, 91690807960650018916712720315580962689, 169300948618975127160964152264243238160, 21856600445991275951918498631216936798);
    lemma_power_square(188219469409738621825101300839109888783int, p, 9256395, 21856600445991275951918498631216936798, 165430080499381257228458330194437310317);
    lemma_power_square(188219469409738621825101300839109888783int, p, 18512790, 165430080499381257228458330194437310317, 169420678998125536506591496380859710480);
    lemma_power_square(188219469409738621825101300839109888783int, p, 37025580, 169420678998125536506591496380859710480, 234846597054050070645749685625680015012int);
    lemma_power_square(188219469409738621825101300839109888783int, p, 74051160, 234846597054050070645749685625680015012int, 273420038142638565062606215938809450468int);
    lemma_power_square_times(188219469409738621825101300839109888783int, p, 148102320, 273420038142638565062606215938809450468int, 316340414840253113546755908601179180708int, 233654384821459530562845233612911027301int);
    lemma_power_square(188219469409738621825101300839109888783int, p, 296204641, 233654384821459530562845233612911027301int, 180929318067465557309869744440381234907int);
    lemma_power_square(188219469409738621825101300839109888783int, p, 592409282, 180929318067465557309869744440381234907int, 44909040434026410243033560773388109758);
    lemma_power_square(188219469409738621825101300839109888783int, p, 1184818564, 44909040434026410243033560773388109758, 317300939710525881012998811652060747544int);
    lemma_power_square_times(188219469409738621825101300839109888783int, p, 2369637128, 317300939710525881012998811652060747544int, 312148368619172158146542410652551767426int, 196376008802824698691552363971750976414int);
}

#[verifier::rlimit(60)]
proof fn lemma_power_without_29_part_3()
    requires
        fpow(TWO_POWER as int, 4739274257, M as int) == 196376008802824698691552363971750976414int,
    ensures
        fpow(TWO_POWER as int, 310593077749689, M as int) == 190512367699742828879349652802187887000int,
{
    let p = M as int;
    lemma_power_square_times(188219469409738621825101300839109888783int, p, 4739274257, 196376008802824698691552363971750976414int, 207225074097622066971429268057353321258int, 148683629972716080286688534033054132553);
    lemma_power_square(188219469409738621825101300839109888783int, p, 9478548515, 148683629972716080286688534033054132553, 168105075825493394216203638694618438636);
    lemma_power_square_times(188219469409738621825101300839109888783int, p, 18957097030, 168105075825493394216203638694618438636, 307913595312071131343106256547454188240int, 148780752570684575038691376365979969106);
    lemma_power_square(188219469409738621825101300839109888783int, p, 37914194061, 148780752570684575038691376365979969106, 166778396612645380079894389693593430595);
    lemma_power_square(188219469409738621825101300839109888783int, p, 75828388122, 166778396612645380079894389693593430595, 221223444023416830927241331168726160371int);
    lemma_power_square_times(188219469409738621825101300839109888783int, p, 151656776244, 221223444023416830927241331168726160371int, 171447940939394655064832053990703486067int, 291349206312259236153641323425333027102int);
    lemma_power_square_times(188219469409738621825101300839109888783int, p, 303313552489, 291349206312259236153641323425333027102int, 57193771364762531649361929658549820462, 72475626768958005758601439435618394662);
    lemma_power_square_times(188219469409738621825101300839109888783int, p, 606627104979, 72475626768958005758601439435618394662, 147838634017196976388445385682592828597, 275744518696091105181057306332117327652int);
    lemma_power_square_times(188219469409738621825101300839109888783int, p, 1213254209959, 275744518696091105181057306332117327652int, 307256502459478836118902218927800115087int, 31248803208096312120862360511109788349);
    lemma_power_square(188219469409738621825101300839109888783int, p, 2426508419919, 31248803208096312120862360511109788349, 229607923261981837307275038937626655768int);
    lemma_power_square_times(188219469409738621825101300839109888783int, p, 4853016839838, 229607923261981837307275038937626655768int, 149508074161791269082865671953933719187, 285214909637794756842401215372827052017int);
    lemma_power_square_times(188219469409738621825101300839109888783int, p, 9706033679677, 285214909637794756842401215372827052017int, 28160323913567442890158622389273095997, 131011123452918440530120700329007770066);
    lemma_power_square_times(188219469409738621825101300839109888783int, p, 19412067359355, 131011123452918440530120700329007770066, 31563847636724990144661939210831687514, 33843732175699767314254654825166458847);
    lemma_power_square(188219469409738621825101300839109888783int, p, 38824134718711, 33843732175699767314254654825166458847, 221014338811002122344078320710168767789int);
    lemma_power_square(188219469409738621825101300839109888783int, p, 77648269437422, 221014338811002122344078320710168767789int, 108686115536790783799859172155659626761);
    lemma_power_square_times(188219469409738621825101300839109888783int, p, 155296538874844, 108686115536790783799859172155659626761, 141756764788434985874758058713662517602, 190512367699742828879349652802187887000int);
}

#[verifier::rlimit(60)]
proof fn lemma_power_without_29_part_4()
    requires
        fpow(TWO_POWER as int, 310593077749689, M as int) == 190512367699742828879349652802187887000int,
    ensures
        fpow(TWO_POWER as int, 20355027943403643162, M as int) == 84645871767609372602402620533351919024,
{
    let p = M as int;
    lemma_power_square(188219469409738621825101300839109888783int, p, 310593077749689, 190512367699742828879349652802187887000int, 35732650930178897929018799569240876837);
    lemma_power_square_times(188219469409738621825101300839109888783int, p, 621186155499378, 35732650930178897929018799569240876837, 148611214388899396244742095286117368474, 45364866497428987853161220806142034381);
    lemma_power_square_times(188219469409738621825101300839109888783int, p, 1242372310998757, 45364866497428987853161220806142034381, 11116691849949765046634254937244874435, 223275113939200547759397821110059433621int);
    lemma_power_square(188219469409738621825101300839109888783int, p, 2484744621997515, 223275113939200547759397821110059433621int, 234373663282043148333051758144433697559int);
    lemma_power_square(188219469409738621825101300839109888783int, p, 4969489243995030, 234373663282043148333051758144433697559int, 174172847918009387251292264865447769170int);
    lemma_power_square(188219469409738621825101300839109888783int, p, 9938978487990060, 174172847918009387251292264865447769170int, 11198025633219953641357333601603053062);
    lemma_power_square(188219469409738621825101300839109888783int, p, 19877956975980120, 11198025633219953641357333601603053062, 235045125960381610920446215050568844347int);
    lemma_power_square_times(188219469409738621825101300839109888783int, p, 39755913951960240, 235045125960381610920446215050568844347int, 229466407108079540079643532999264512639int, 23764212843982283608689134521782732865);
    lemma_power_square(188219469409738621825101300839109888783int, p, 79511827903920481, 23764212843982283608689134521782732865, 292498141248205041769748630547909639614int);
    lemma_power_square(188219469409738621825101300839109888783int, p, 159023655807840962, 292498141248205041769748630547909639614int, 115003020449573121665296618851167895181);
    lemma_power_square(188219469409738621825101300839109888783int, p, 318047311615681924, 115003020449573121665296618851167895181, 305431008125347515188695693970010037593int);
    lemma_power_square_times(188219469409738621825101300839109888783int, p, 636094623231363848, 305431008125347515188695693970010037593int, 55023295607372498400853813429752197450, 276217787614894734990964085109794579497int);
    lemma_power_square_times(188219469409738621825101300839109888783int, p, 1272189246462727697, 276217787614894734990964085109794579497int, 287296128358627788838231278869502734842int, 62602299927707216152450330896398530312);
    lemma_power_square(188219469409738621825101300839109888783int, p, 2544378492925455395, 62602299927707216152450330896398530312, 197581576790894327410084158944285941186int);
    lemma_power_square_times(188219469409738621825101300839109888783int, p, 5088756985850910790, 197581576790894327410084158944285941186int, 195739974250123299385431060652290927007int, 193909688109594600028516811321116841241int);
    lemma_power_square(188219469409738621825101300839109888783int, p, 10177513971701821581, 193909688109594600028516811321116841241int, 84645871767609372602402620533351919024);
}

#[verifier::rlimit(60)]
proof fn lemma_power_without_29_part_5()
    requires
        fpow(TWO_POWER as int, 20355027943403643162, M as int) == 84645871767609372602402620533351919024,
    ensures
        fpow(TWO_POWER as int, 1333987111298901158296469, M as int) == 41292155191557992516254018383987180663,
{
    let p = M as int;
    lemma_power_square(188219469409738621825101300839109888783int, p, 20355027943403643162, 84645871767609372602402620533351919024, 182067638117984063682990171346071311789int);
    lemma_power_square_times(188219469409738621825101300839109888783int, p, 40710055886807286324, 182067638117984063682990171346071311789int, 157730275767046983160067010986464112623, 77929135370941461620069304880803258397);
    lemma_power_square_times(188219469409738621825101300839109888783int, p, 81420111773614572649, 77929135370941461620069304880803258397, 77457708978104563327466889988451629602, 17633459867105565465435704499235206961);
    lemma_power_square_times(188219469409738621825101300839109888783int, p, 162840223547229145299, 17633459867105565465435704499235206961, 204594324591936056415641500467614315335int, 267055258074758934642280908028294782244int);
    lemma_power_square_times(188219469409738621825101300839109888783int, p, 325680447094458290599, 267055258074758934642280908028294782244int, 266376629836452243450710427487451130139int, 289030718351608831689362552685813857154int);
    lemma_power_square(188219469409738621825101300839109888783int, p, 651360894188916581199, 289030718351608831689362552685813857154int, 45584660444998442085402054406745006425);
    lemma_power_square_times(188219469409738621825101300839109888783int, p, 1302721788377833162398, 45584660444998442085402054406745006425, 54037568664050964793551534267492080823, 188121631802502010321319564305653311333int);
    lemma_power_square_times(188219469409738621825101300839109888783int, p, 2605443576755666324797, 188121631802502010321319564305653311333int, 77058079195153606255807068639843212840, 107167094686442131553071504975619057736);
    lemma_power_square_times(188219469409738621825101300839109888783int, p, 5210887153511332649595, 107167094686442131553071504975619057736, 141920388430206960756449159381504601245, 241455631693046442494958447746353173863int);
    lemma_power_square(188219469409738621825101300839109888783int, p, 10421774307022665299191, 241455631693046442494958447746353173863int, 140946771724096700073303568209594930232);
    lemma_power_square(188219469409738621825101300839109888783int, p, 20843548614045330598382, 140946771724096700073303568209594930232, 167419556172472470280583587116056850514);
    lemma_power_square_times(188219469409738621825101300839109888783int, p, 41687097228090661196764, 167419556172472470280583587116056850514, 118881336824744153117704027586768433161, 108497338931311719205306538729872461218);
    lemma_power_square(188219469409738621825101300839109888783int, p, 83374194456181322393529, 108497338931311719205306538729872461218, 107885178658502087819229675560391255717);
    lemma_power_square_times(188219469409738621825101300839109888783int, p, 166748388912362644787058, 107885178658502087819229675560391255717, 323234472991501013682361952839745800698int, 82580012861395982730408378726414588848);
    lemma_power_square(188219469409738621825101300839109888783int, p, 333496777824725289574117, 82580012861395982730408378726414588848, 142174252580688972853942009018896219559);
    lemma_power_square_times(188219469409738621825101300839109888783int, p, 666993555649450579148234, 142174252580688972853942009018896219559, 124477871156109548265221914762832084997, 41292155191557992516254018383987180663);
}

#[verifier::rlimit(60)]
proof fn lemma_power_without_29_part_6()
    requires
        fpow(TWO_POWER as int, 1333987111298901158296469, M as int) == 41292155191557992516254018383987180663,
    ensures
        fpow(TWO_POWER as int, 10671896890391209266371759, M as int) == 114792961311339977158635919681573159865,
{
    let p = M as int;
    lemma_power_square_times(188219469409738621825101300839109888783int, p, 1333987111298901158296469, 41292155191557992516254018383987180663, 36295528051653049273091803786091943455, 318051244082481019439325367177978021029int);
    lemma_power_square_times(188219469409738621825101300839109888783int, p, 2667974222597802316592939, 318051244082481019439325367177978021029int, 119500743108075221801351826790205558551, 320672590179138807938737504286843543875int);
    lemma_power_square_times(188219469409738621825101300839109888783int, p, 5335948445195604633185879, 320672590179138807938737504286843543875int, 8015295956192957703555794186927706620, 114792961311339977158635919681573159865);
}

/// `TWO_POWER` raised to the odd part of `M - 1` without its factor `29`.
proof fn lemma_power_without_29()
    ensures
        fpow(TWO_POWER as int, 10671896890391209266371759, M as int) == 114792961311339977158635919681573159865,
{
    lemma_power_first(TWO_POWER as int, M as int);
    lemma_power_without_29_part_1();
    lemma_power_without_29_part_2();
    lemma_power_without_29_part_3();
    lemma_power_without_29_part_4();
    lemma_power_without_29_part_5();
    lemma_power_without_29_part_6();
}

#[verifier::rlimit(60)]
proof fn lemma_power_without_181_part_1()
    requires
        fpow(TWO_POWER as int, 1, M as int) == 188219469409738621825101300839109888783int,
    ensures
        fpow(TWO_POWER as int, 92691, M as int) == 287339190170319396195776762639961077189int,
{
    let p = M as int;
    lemma_power_square(188219469409738621825101300839109888783int, p, 1, 188219469409738621825101300839109888783int, 75337333997421626747215133596433633601);
    lemma_power_square_times(188219469409738621825101300839109888783int, p, 2, 75337333997421626747215133596433633601, 115533458186931683609747643324738045672, 206818143297142340960263406658644421358int);
    lemma_power_square_times(188219469409738621825101300839109888783int, p, 5, 206818143297142340960263406658644421358int, 234460598893813874638196026739661699549int, 90508408715743770953392680271857912257);
    lemma_power_square(188219469409738621825101300839109888783int, p, 11, 90508408715743770953392680271857912257, 294846777676731501888800087398462302954int);
    lemma_power_square_times(188219469409738621825101300839109888783int, p, 22, 294846777676731501888800087398462302954int, 217134165496645782356655580307731551850int, 80712271787611507255903615296099205850);
    lemma_power_square(188219469409738621825101300839109888783int, p, 45, 80712271787611507255903615296099205850, 153552539295870790672667008173710427106);
    lemma_power_square_times(188219469409738621825101300839109888783int, p, 90, 153552539295870790672667008173710427106, 329919697428279836672124133855702296581int, 131396794081487038166248750364045088112);
    lemma_power_square(188219469409738621825101300839109888783int, p, 181, 131396794081487038166248750364045088112, 229597151366998663738041113376596151709int);
    lemma_power_square(188219469409738621825101300839109888783int, p, 362, 229597151366998663738041113376596151709int, 225829084626596257352309539737995244132int);
    lemma_power_square(188219469409738621825101300839109888783int, p, 724, 225829084626596257352309539737995244132int, 55466623735742115590843727862730113675);
    lemma_power_square(188219469409738621825101300839109888783int, p, 1448, 55466623735742115590843727862730113675, 160426974199904112166578059091994058258);
    lemma_power_square_times(188219469409738621825101300839109888783int, p, 2896, 160426974199904112166578059091994058258, 82195603887907434257450708911112964956, 133472264866899825611619828231459976477);
    lemma_power_square(188219469409738621825101300839109888783int, p, 5793, 133472264866899825611619828231459976477, 83691322535059285814775908997485773725);
    lemma_power_square(188219469409738621825101300839109888783int, p, 11586, 83691322535059285814775908997485773725, 328708052665126301590141970545742592834int);
    lemma_power_square_times(188219469409738621825101300839109888783int, p, 23172, 328708052665126301590141970545742592834int, 134990381904376742722566571702362355997, 309931308697586937273835154017748791922int);
    lemma_power_square_times(188219469409738621825101300839109888783int, p, 46345, 309931308697586937273835154017748791922int, 205728674160084681633239535722650087169int, 287339190170319396195776762639961077189int);
}

#[verifier::rlimit(60)]
proof fn lemma_power_without_181_part_2()
    requires
        fpow(TWO_POWER as int, 92691, M as int) == 287339190170319396195776762639961077189int,
    ensures
        fpow(TWO_POWER as int, 6074649877, M as int) == 189614985565638073359111928209746183708int,
{
    let p = M as int;
    lemma_power_square_times(188219469409738621825101300839109888783int, p, 92691, 287339190170319396195776762639961077189int, 166208021062038188268586268338926030174, 178274645876947279320238773036702137945int);
    lemma_power_square_times(188219469409738621825101300839109888783int, p, 185383, 178274645876947279320238773036702137945int, 77891018023977413748543555281960877481, 273852749764447935301168427186303707076int);
    lemma_power_square(188219469409738621825101300839109888783int, p, 370767, 273852749764447935301168427186303707076int, 298261071774263212595927376946959317424int);
    lemma_power_square(188219469409738621825101300839109888783int, p, 741534, 298261071774263212595927376946959317424int, 20051637679630002429473796782527388225);
    lemma_power_square_times(188219469409738621825101300839109888783int, p, 1483068, 20051637679630002429473796782527388225, 122839452881932641821353405983003471678, 53856745888150906880297482420325547957);
    lemma_power_square_times(188219469409738621825101300839109888783int, p, 2966137, 53856745888150906880297482420325547957, 127863752820091544290610049021189191266, 339061297687689197844653699114057320085int);
    lemma_power_square(188219469409738621825101300839109888783int, p, 5932275, 339061297687689197844653699114057320085int, 74041010779700805750143229497772648243);
    lemma_power_square_times(188219469409738621825101300839109888783int, p, 11864550, 74041010779700805750143229497772648243, 141630996846187172158979492040081259662, 65248142522349582491879902149805258932);
    lemma_power_square(188219469409738621825101300839109888783int, p, 23729101, 65248142522349582491879902149805258932, 49620584412438762574235562879087141359);
    lemma_power_square(188219469409738621825101300839109888783int, p, 47458202, 49620584412438762574235562879087141359, 211585947672704877140222762114355131286int);
    lemma_power_square(188219469409738621825101300839109888783int, p, 94916404, 211585947672704877140222762114355131286int, 164689883354157855009484031165014608437);
    lemma_power_square_times(188219469409738621825101300839109888783int, p, 189832808, 164689883354157855009484031165014608437, 101718774175405805307779669294015812001, 95133058191967899883084302612248785988);
    lemma_power_square(188219469409738621825101300839109888783int, p, 379665617, 95133058191967899883084302612248785988, 214946484886606414949494127606692215419int);
    lemma_power_square_times(188219469409738621825101300839109888783int, p, 759331234, 214946484886606414949494127606692215419int, 37692945804607467689698965873677693964, 317973177788930543864948021806497503520int);
    lemma_power_square(188219469409738621825101300839109888783int, p, 1518662469, 317973177788930543864948021806497503520int, 317971550627745696635030478640947469474int);
    lemma_power_square_times(188219469409738621825101300839109888783int, p, 3037324938, 317971550627745696635030478640947469474int, 30961870411948518294029261911754283808, 189614985565638073359111928209746183708int);
}

#[verifier::rlimit(60)]
proof fn lemma_power_without_181_part_3()
    requires
        fpow(TWO_POWER as int, 6074649877, M as int) == 189614985565638073359111928209746183708int,
    ensures
        fpow(TWO_POWER as int, 398108254353193, M as int) == 250594207873877802240445356332238556111int,
{
    let p = M as int;
    lemma_power_square(188219469409738621825101300839109888783int, p, 6074649877, 189614985565638073359111928209746183708int, 44041173359573801140320896627577426088);
    lemma_power_square(188219469409738621825101300839109888783int, p, 12149299754, 44041173359573801140320896627577426088, 58894668452771968880051630672438450429);
    lemma_power_square_times(188219469409738621825101300839109888783int, p, 24298599508, 58894668452771968880051630672438450429, 63368044909275018903345673158765026739, 207401914011426813183785467889324443593int);
    lemma_power_square_times(188219469409738621825101300839109888783int, p, 48597199017, 207401914011426813183785467889324443593int, 135840575460665945774396614336447929734, 233862312810557026212882580100768377434int);
    lemma_power_square(188219469409738621825101300839109888783int, p, 97194398035, 233862312810557026212882580100768377434int, 168179053986454793435052464561604349739);
    lemma_power_square_times(188219469409738621825101300839109888783int, p, 194388796070, 168179053986454793435052464561604349739, 121285102565997755732731914336812352155, 245695540990647158494249877359426245143int);
    lemma_power_square_times(188219469409738621825101300839109888783int, p, 388777592141, 245695540990647158494249877359426245143int, 265106973664236417097222290610443741746int, 227294479481211900223138710370375295323int);
    lemma_power_square_times(188219469409738621825101300839109888783int, p, 777555184283, 227294479481211900223138710370375295323int, 324454856254247296410456807306496136182int, 84071247212411794210416406450480744783);
    lemma_power_square(188219469409738621825101300839109888783int, p, 1555110368567, 84071247212411794210416406450480744783, 175922273351800709441545484875948921146int);
    lemma_power_square(188219469409738621825101300839109888783int, p, 3110220737134, 175922273351800709441545484875948921146int, 259560132305853625727743184564780661015int);
    lemma_power_square_times(188219469409738621825101300839109888783int, p, 6220441474268, 259560132305853625727743184564780661015int, 300386301140462931508717274782786829443int, 133418136697742477458395124869779171032);
    lemma_power_square(188219469409738621825101300839109888783int, p, 12440882948537, 133418136697742477458395124869779171032, 232271698312295784617722293821571469917int);
    lemma_power_square_times(188219469409738621825101300839109888783int, p, 24881765897074, 232271698312295784617722293821571469917int, 294832346076597610840041183704031945970int, 130365909346820894463714733639459469824);
    lemma_power_square(188219469409738621825101300839109888783int, p, 49763531794149, 130365909346820894463714733639459469824, 60157833427014047573851469441306162767);
    lemma_power_square(188219469409738621825101300839109888783int, p, 99527063588298, 60157833427014047573851469441306162767, 321794656034244200638341901226961287726int);
    lemma_power_square_times(188219469409738621825101300839109888783int, p, 199054127176596, 321794656034244200638341901226961287726int, 131427707238204663054051328574681955543, 250594207873877802240445356332238556111int);
}

#[verifier::rlimit(60)]
proof fn lemma_power_without_181_part_4()
    requires
        fpow(TWO_POWER as int, 398108254353193, M as int) == 250594207873877802240445356332238556111int,
    ensures
        fpow(TWO_POWER as int, 26090422557290857534, M as int) == 10549703143163348424480261712903492673,
{
    let p = M as int;
    lemma_power_square(188219469409738621825101300839109888783int, p, 398108254353193, 250594207873877802240445356332238556111int, 333523291613038454397687314430585459819int);
    lemma_power_square(188219469409738621825101300839109888783int, p, 796216508706386, 333523291613038454397687314430585459819int, 143135505257135774611040946867447645280);
    lemma_power_square(188219469409738621825101300839109888783int, p, 1592433017412772, 143135505257135774611040946867447645280, 276990958006395783122447923283001641447int);
    lemma_power_square(188219469409738621825101300839109888783int, p, 3184866034825544, 276990958006395783122447923283001641447int, 86231502979768463635088588993781125714);
    lemma_power_square(188219469409738621825101300839109888783int, p, 6369732069651088, 86231502979768463635088588993781125714, 74003639388118619573636668318025454866);
    lemma_power_square_times(188219469409738621825101300839109888783int, p, 12739464139302176, 74003639388118619573636668318025454866, 161451926393903756439797487885573948997, 287394556730131178945625081622871068193int);
    lemma_power_square(188219469409738621825101300839109888783int, p, 25478928278604353, 287394556730131178945625081622871068193int, 141649616366739536182606539997242723591);
    lemma_power_square(188219469409738621825101300839109888783int, p, 50957856557208706, 141649616366739536182606539997242723591, 207163135936105687514088641911944946136int);
    lemma_power_square(188219469409738621825101300839109888783int, p, 101915713114417412, 207163135936105687514088641911944946136int, 215614506700080039159554747398801205458int);
    lemma_power_square(188219469409738621825101300839109888783int, p, 203831426228834824, 215614506700080039159554747398801205458int, 31057956859714152204230662304250383421);
    lemma_power_square_times(188219469409738621825101300839109888783int, p, 407662852457669648, 31057956859714152204230662304250383421, 145186049351215965538987178396407681466, 54845951824981179062786041369203254926);
    lemma_power_square_times(188219469409738621825101300839109888783int, p, 815325704915339297, 54845951824981179062786041369203254926, 322854674477078618208359371436844306203int, 268611114410058693648647688904736938981int);
    lemma_power_square_times(188219469409738621825101300839109888783int, p, 1630651409830678595, 268611114410058693648647688904736938981int, 96503020153010880440143515637033169228, 52873940602638022199268971305405932908);
    lemma_power_square_times(188219469409738621825101300839109888783int, p, 3261302819661357191, 52873940602638022199268971305405932908, 147962558893204718997770328905585785757, 7067553201899094400492435241559209378);
    lemma_power_square_times(188219469409738621825101300839109888783int, p, 6522605639322714383, 7067553201899094400492435241559209378, 142833023995757399677830022473877698867, 127856154472099246664041584043840831683);
    lemma_power_square(188219469409738621825101300839109888783int, p, 13045211278645428767, 127856154472099246664041584043840831683, 10549703143163348424480261712903492673);
}

#[verifier::rlimit(60)]
proof fn lemma_power_without_181_part_5()
    requires
        fpow(TWO_POWER as int, 26090422557290857534, M as int) == 10549703143163348424480261712903492673,
    ensures
        fpow(TWO_POWER as int, 1709861932714613639363431, M as int) == 95816247745561154808017863345204159341,
{
    let p = M as int;
    lemma_power_square(188219469409738621825101300839109888783int, p, 26090422557290857534, 10549703143163348424480261712903492673, 318858965545330751657365838307018278314int);
    lemma_power_square(188219469409738621825101300839109888783int, p, 52180845114581715068, 318858965545330751657365838307018278314int, 35071425760803056395493168640863222152);
    lemma_power_square_times(188219469409738621825101300839109888783int, p, 104361690229163430136, 35071425760803056395493168640863222152, 277966895756355560854032737992769339196int, 305650242036010702958762320610601657452int);
    lemma_power_square_times(188219469409738621825101300839109888783int, p, 208723380458326860273, 305650242036010702958762320610601657452int, 321932281016314733183201312941272606569int, 105547080651687282515773898280995076664);
    lemma_power_square_times(188219469409738621825101300839109888783int, p, 417446760916653720547, 105547080651687282515773898280995076664, 338275395489822057967820712779620878610int, 57137772195981072700232983244237137820);
    lemma_power_square(188219469409738621825101300839109888783int, p, 834893521833307441095, 57137772195981072700232983244237137820, 122613400646403945996095899153433349072);
    lemma_power_square_times(188219469409738621825101300839109888783int, p, 1669787043666614882190, 122613400646403945996095899153433349072, 184385299725792705396634122756225060766int, 20369259264042159450883644859555904392);
    lemma_power_square_times(188219469409738621825101300839109888783int, p, 3339574087333229764381, 20369259264042159450883644859555904392, 99835378155786888427415631371650960021, 148616602169413469768068577671664965995);
    lemma_power_square(188219469409738621825101300839109888783int, p, 6679148174666459528763, 148616602169413469768068577671664965995, 211160533481860439116866899379634170589int);
    lemma_power_square_times(188219469409738621825101300839109888783int, p, 13358296349332919057526, 211160533481860439116866899379634170589int, 68744440893547227692986255458797054114, 234805450316229242604448776843047582773int);
    lemma_power_square_times(188219469409738621825101300839109888783int, p, 26716592698665838115053, 234805450316229242604448776843047582773int, 240406021840939520065088318397898607866int, 268252664036344067868479516674882630312int);
    lemma_power_square(188219469409738621825101300839109888783int, p, 53433185397331676230107, 268252664036344067868479516674882630312int, 83000612264335313697541652577221340280);
    lemma_power_square(188219469409738621825101300839109888783int, p, 106866370794663352460214, 83000612264335313697541652577221340280, 206032576818434603008198835124215162644int);
    lemma_power_square_times(188219469409738621825101300839109888783int, p, 213732741589326704920428, 206032576818434603008198835124215162644int, 327870115284480630494374066087384862856int, 237981791337264115692189508971216266816int);
    lemma_power_square_times(188219469409738621825101300839109888783int, p, 427465483178653409840857, 237981791337264115692189508971216266816int, 122392077839032383873307612247579216980, 188790169215988069286366846483237696716int);
    lemma_power_square_times(188219469409738621825101300839109888783int, p, 854930966357306819681715, 188790169215988069286366846483237696716int, 320981217686115267611429413685857936174int, 95816247745561154808017863345204159341);
}

/// `TWO_POWER` raised to the odd part of `M - 1` without its factor `181`.
proof fn lemma_power_without_181()
    ensures
        fpow(TWO_POWER as int, 1709861932714613639363431, M as int) == 95816247745561154808017863345204159341,
{
    lemma_power_first(TWO_POWER as int, M as int);
    lemma_power_without_181_part_1();
    lemma_power_without_181_part_2();
    lemma_power_without_181_part_3();
    lemma_power_without_181_part_4();
    lemma_power_without_181_part_5();
}

#[verifier::rlimit(60)]
proof fn lemma_power_without_286619_part_1()
    requires
        fpow(TWO_POWER as int, 1, M as int) == 188219469409738621825101300839109888783int,
    ensures
        fpow(TWO_POWER as int, 119879, M as int) == 223113038672933446104540611240859286675int,
{
    let p = M as int;
    lemma_power_square_times(188219469409738621825101300839109888783int, p, 1, 188219469409738621825101300839109888783int, 75337333997421626747215133596433633601, 295716771147097259692089194266450176956int);
    lemma_power_square_times(188219469409738621825101300839109888783int, p, 3, 295716771147097259692089194266450176956int, 188559571494059901021091998049101710273int, 23748352141335640447028119910300639369);
    lemma_power_square(188219469409738621825101300839109888783int, p, 7, 23748352141335640447028119910300639369, 133165424011590249158524611784238271022);
    lemma_power_square_times(188219469409738621825101300839109888783int, p, 14, 133165424011590249158524611784238271022, 250244304502393679181651155817525342698int, 22394471479873448078776639040255225323);
    lemma_power_square(188219469409738621825101300839109888783int, p, 29, 22394471479873448078776639040255225323, 177422525216692416559199081863191424919int);
    lemma_power_square_times(188219469409738621825101300839109888783int, p, 58, 177422525216692416559199081863191424919int, 211829080057890246523515999322824221071int, 189263671385619356191911924679169582141int);
    lemma_power_square(188219469409738621825101300839109888783int, p, 117, 189263671385619356191911924679169582141int, 4627252474374069511995611230328861398);
    lemma_power_square(188219469409738621825101300839109888783int, p, 234, 4627252474374069511995611230328861398, 187096072184052417622267612318403701273int);
    lemma_power_square(188219469409738621825101300839109888783int, p, 468, 187096072184052417622267612318403701273int, 152702981547026351564831543037046962810);
    lemma_power_square_times(188219469409738621825101300839109888783int, p, 936, 152702981547026351564831543037046962810, 333813506275552432266219387781632607819int, 178600329883072194613570531700394229804int);
    lemma_power_square(188219469409738621825101300839109888783int, p, 1873, 178600329883072194613570531700394229804int, 164846815519244064715642908308932233014);
    lemma_power_square(188219469409738621825101300839109888783int, p, 3746, 164846815519244064715642908308932233014, 163514836914717893027596470044728747463);
    lemma_power_square(188219469409738621825101300839109888783int, p, 7492, 163514836914717893027596470044728747463, 101517968752588558175209937677949263387);
    lemma_power_square_times(188219469409738621825101300839109888783int, p, 14984, 101517968752588558175209937677949263387, 61570321369148725448373647721463634369, 263894430707517338484898967109860105234int);
    lemma_power_square_times(188219469409738621825101300839109888783int, p, 29969, 263894430707517338484898967109860105234int, 248524669917012558888221931879315076288int, 5223041296032920418818773884103853126);
    lemma_power_square_times(188219469409738621825101300839109888783int, p, 59939, 5223041296032920418818773884103853126, 197016251128597808111571459561488719739int, 223113038672933446104540611240859286675int);
}

#[verifier::rlimit(60)]
proof fn lemma_power_without_286619_part_2()
    requires
        fpow(TWO_POWER as int, 119879, M as int) == 223113038672933446104540611240859286675int,
    ensures
        fpow(TWO_POWER as int, 7856421987, M as int) == 255204359265285844979485224848892572749int,
{
    let p = M as int;
    lemma_power_square(188219469409738621825101300839109888783int, p, 119879, 223113038672933446104540611240859286675int, 211078535475689849262448882107793946001int);
    lemma_power_square_times(188219469409738621825101300839109888783int, p, 239758, 211078535475689849262448882107793946001int, 324408292467323264688078130632789074371int, 37788751206678418527166685790800936349);
    lemma_power_square_times(188219469409738621825101300839109888783int, p, 479517, 37788751206678418527166685790800936349, 181100794772655056058593428574340680358int, 164789981990491818496079834925472533346);
    lemma_power_square_times(188219469409738621825101300839109888783int, p, 959035, 164789981990491818496079834925472533346, 279926947234730183903662508476092329010int, 32233511661110739599709342747388823607);
    lemma_power_square_times(188219469409738621825101300839109888783int, p, 1918071, 32233511661110739599709342747388823607, 159411380472808506080812181322401526151, 23203862369149522319404423070465927003);
    lemma_power_square_times(188219469409738621825101300839109888783int, p, 3836143, 23203862369149522319404423070465927003, 136121865441570228509817210360929074318, 200218842840016792804983607798830210257int);
    lemma_power_square(188219469409738621825101300839109888783int, p, 7672287, 200218842840016792804983607798830210257int, 72846598880322619922948370338953802391);
    lemma_power_square(188219469409738621825101300839109888783int, p, 15344574, 72846598880322619922948370338953802391, 160513913601015044188608964393878784857);
    lemma_power_square(188219469409738621825101300839109888783int, p, 30689148, 160513913601015044188608964393878784857, 245615523383884520640458880133981343256int);
    lemma_power_square_times(188219469409738621825101300839109888783int, p, 61378296, 245615523383884520640458880133981343256int, 144413479735946303505505359779519905267, 27392190702167345982200921643725956670);
    lemma_power_square_times(188219469409738621825101300839109888783int, p, 122756593, 27392190702167345982200921643725956670, 145417512343238372074242115254786445254, 24077947048567867220925429367692563144);
    lemma_power_square(188219469409738621825101300839109888783int, p, 245513187, 24077947048567867220925429367692563144, 1887627635362644455695195763210328276);
    lemma_power_square(188219469409738621825101300839109888783int, p, 491026374, 1887627635362644455695195763210328276, 339449581033136353037011660225264623660int);
    lemma_power_square(188219469409738621825101300839109888783int, p, 982052748, 339449581033136353037011660225264623660int, 236079843691431613439980441294121791562int);
    lemma_power_square_times(188219469409738621825101300839109888783int, p, 1964105496, 236079843691431613439980441294121791562int, 65403380828632355512507755788997150653, 84011957283621372064337731492467758357);
    lemma_power_square_times(188219469409738621825101300839109888783int, p, 3928210993, 84011957283621372064337731492467758357, 15002406465003203423425371358435456856, 255204359265285844979485224848892572749int);
}

#[verifier::rlimit(60)]
proof fn lemma_power_without_286619_part_3()
    requires
        fpow(TWO_POWER as int, 7856421987, M as int) == 255204359265285844979485224848892572749int,
    ensures
        fpow(TWO_POWER as int, 514878471384229, M as int) == 123330403775977804854755872359759486333,
{
    let p = M as int;
    lemma_power_square_times(188219469409738621825101300839109888783int, p, 7856421987, 255204359265285844979485224848892572749int, 234736323959324819666669570317478859380int, 322304243444569364735316046468489871287int);
    lemma_power_square(188219469409738621825101300839109888783int, p, 15712843975, 322304243444569364735316046468489871287int, 164562192783409049924270146531806084830);
    lemma_power_square_times(188219469409738621825101300839109888783int, p, 31425687950, 164562192783409049924270146531806084830, 311027441725821055796248134136789122867int, 316108224600199168034480468103873400532int);
    lemma_power_square(188219469409738621825101300839109888783int, p, 62851375901, 316108224600199168034480468103873400532int, 218898950085092680144402320695818109461int);
    lemma_power_square_times(188219469409738621825101300839109888783int, p, 125702751802, 218898950085092680144402320695818109461int, 210304056701084800768350752004834207814int, 118733100833750566385112506871763407586);
    lemma_power_square_times(188219469409738621825101300839109888783int, p, 251405503605, 118733100833750566385112506871763407586, 67100421678727823417872724996010597900, 106443213708381697794751177727183476280);
    lemma_power_square(188219469409738621825101300839109888783int, p, 502811007211, 106443213708381697794751177727183476280, 174483500806168113342930289110778253511int);
    lemma_power_square(188219469409738621825101300839109888783int, p, 1005622014422, 174483500806168113342930289110778253511int, 257762914070207273002854514398147945951int);
    lemma_power_square_times(188219469409738621825101300839109888783int, p, 2011244028844, 257762914070207273002854514398147945951int, 231230961725944163397649702692910153595int, 249866664336431762108477010297533473947int);
    lemma_power_square(188219469409738621825101300839109888783int, p, 4022488057689, 249866664336431762108477010297533473947int, 256250582514236376661615567179777198072int);
    lemma_power_square_times(188219469409738621825101300839109888783int, p, 8044976115378, 256250582514236376661615567179777198072int, 287187751534299636476814451105558387143int, 310959421162542220389902126042949342243int);
    lemma_power_square(188219469409738621825101300839109888783int, p, 16089952230757, 310959421162542220389902126042949342243int, 250262615929111248331633107180314585665int);
    lemma_power_square(188219469409738621825101300839109888783int, p, 32179904461514, 250262615929111248331633107180314585665int, 10635841540440010371176814867689502456);
    lemma_power_square_times(188219469409738621825101300839109888783int, p, 64359808923028, 10635841540440010371176814867689502456, 261490388618172620661132455908988922348int, 296711219222244430036604290768328184283int);
    lemma_power_square(188219469409738621825101300839109888783int, p, 128719617846057, 296711219222244430036604290768328184283int, 86052184287787442569977879051561082401);
    lemma_power_square_times(188219469409738621825101300839109888783int, p, 257439235692114, 86052184287787442569977879051561082401, 318666800957730442759627211452967497611int, 123330403775977804854755872359759486333);
}

#[verifier::rlimit(60)]
proof fn lemma_power_without_286619_part_4()
    requires
        fpow(TWO_POWER as int, 514878471384229, M as int) == 123330403775977804854755872359759486333,
    ensures
        fpow(TWO_POWER as int, 33743075500636850305, M as int) == 252857711102518562511669219752248672632int,
{
    let p = M as int;
    lemma_power_square(188219469409738621825101300839109888783int, p, 514878471384229, 123330403775977804854755872359759486333, 9381876988962797613521076169781977603);
    lemma_power_square_times(188219469409738621825101300839109888783int, p, 1029756942768458, 9381876988962797613521076169781977603, 119749707911385572720966582860513661750, 29281545205589761678412129597498338885);
    lemma_power_square(188219469409738621825101300839109888783int, p, 2059513885536917, 29281545205589761678412129597498338885, 117517065698124574559270614069512034448);
    lemma_power_square(188219469409738621825101300839109888783int, p, 4119027771073834, 117517065698124574559270614069512034448, 281354709935531218396823393096565431303int);
    lemma_power_square_times(188219469409738621825101300839109888783int, p, 8238055542147668, 281354709935531218396823393096565431303int, 61331633142751038857886613138302006139, 61968521909548355665891123869768760146);
    lemma_power_square(188219469409738621825101300839109888783int, p, 16476111084295337, 61968521909548355665891123869768760146, 200212044282744561296469015984354657832int);
    lemma_power_square(188219469409738621825101300839109888783int, p, 32952222168590674, 200212044282744561296469015984354657832int, 300661146145150434062090300498741095823int);
    lemma_power_square(188219469409738621825101300839109888783int, p, 65904444337181348, 300661146145150434062090300498741095823int, 95440703033157958837432876165339334223);
    lemma_power_square_times(188219469409738621825101300839109888783int, p, 131808888674362696, 95440703033157958837432876165339334223, 26100048083283664339648980141069082287, 323864082285705154397912832644611854960int);
    lemma_power_square(188219469409738621825101300839109888783int, p, 263617777348725393, 323864082285705154397912832644611854960int, 265214592673700694871234383711161632639int);
    lemma_power_square(188219469409738621825101300839109888783int, p, 527235554697450786, 265214592673700694871234383711161632639int, 117070408074137175652733866133297113595);
    lemma_power_square(188219469409738621825101300839109888783int, p, 1054471109394901572, 117070408074137175652733866133297113595, 178122733590160909823267257727345340088int);
    lemma_power_square(188219469409738621825101300839109888783int, p, 2108942218789803144, 178122733590160909823267257727345340088int, 195271985983161258517787268370002120428int);
    lemma_power_square(188219469409738621825101300839109888783int, p, 4217884437579606288, 195271985983161258517787268370002120428int, 160111543097791480302171054218591156887);
    lemma_power_square(188219469409738621825101300839109888783int, p, 8435768875159212576, 160111543097791480302171054218591156887, 267447037386740096761878083713506416544int);
    lemma_power_square_times(188219469409738621825101300839109888783int, p, 16871537750318425152, 267447037386740096761878083713506416544int, 123109191119169318056080176866408020443, 252857711102518562511669219752248672632int);
}

#[verifier::rlimit(60)]
proof fn lemma_power_without_286619_part_5()
    requires
        fpow(TWO_POWER as int, 33743075500636850305, M as int) == 252857711102518562511669219752248672632int,
    ensures
        fpow(TWO_POWER as int, 1079778416020379209769, M as int) == 326132099507953641075081897713081089495int,
{
    let p = M as int;
    lemma_power_square(188219469409738621825101300839109888783int, p, 33743075500636850305, 252857711102518562511669219752248672632int, 292123073654765385426298449131623731706int);
    lemma_power_square_times(188219469409738621825101300839109888783int, p, 67486151001273700610, 292123073654765385426298449131623731706int, 146875695786369194854636616722500751809, 181890470668167943746432928762514771938int);
    lemma_power_square(188219469409738621825101300839109888783int, p, 134972302002547401221, 181890470668167943746432928762514771938int, 239055822451199615741105959065285882137int);
    lemma_power_square(188219469409738621825101300839109888783int, p, 269944604005094802442, 239055822451199615741105959065285882137int, 261248666955581367311702269782293574433int);
    lemma_power_square_times(188219469409738621825101300839109888783int, p, 539889208010189604884, 261248666955581367311702269782293574433int, 261273358191880965423004798669913137233int, 326132099507953641075081897713081089495int);
}

/// `TWO_POWER` raised to the odd part of `M - 1` without its factor `286619`.
proof fn lemma_power_without_286619()
    ensures
        fpow(TWO_POWER as int, 1079778416020379209769, M as int) == 326132099507953641075081897713081089495int,
{
    lemma_power_first(TWO_POWER as int, M as int);
    lemma_power_without_286619_part_1();
    lemma_power_without_286619_part_2();
    lemma_power_without_286619_part_3();
    lemma_power_without_286619_part_4();
    lemma_power_without_286619_part_5();
}

#[verifier::rlimit(60)]
proof fn lemma_power_without_11394379_part_1()
    requires
        fpow(TWO_POWER as int, 1, M as int) == 188219469409738621825101300839109888783int,
    ensures
        fpow(TWO_POWER as int, 96495, M as int) == 249392014199264969658960026498061537333int,
{
    let p = M as int;
    lemma_power_square(188219469409738621825101300839109888783int, p, 1, 188219469409738621825101300839109888783int, 75337333997421626747215133596433633601);
    lemma_power_square_times(188219469409738621825101300839109888783int, p, 2, 75337333997421626747215133596433633601, 115533458186931683609747643324738045672, 206818143297142340960263406658644421358int);
    lemma_power_square_times(188219469409738621825101300839109888783int, p, 5, 206818143297142340960263406658644421358int, 234460598893813874638196026739661699549int, 90508408715743770953392680271857912257);
    lemma_power_square_times(188219469409738621825101300839109888783int, p, 11, 90508408715743770953392680271857912257, 294846777676731501888800087398462302954int, 69230947340907801263797949637088368264);
    lemma_power_square_times(188219469409738621825101300839109888783int, p, 23, 69230947340907801263797949637088368264, 56928160456491887914799544299604201410, 335271335879792237765967222633501134053int);
    lemma_power_square(188219469409738621825101300839109888783int, p, 47, 335271335879792237765967222633501134053int, 254826725465969524301937497823103746911int);
    lemma_power_square(188219469409738621825101300839109888783int, p, 94, 254826725465969524301937497823103746911int, 119758346657235250549200409334756237006);
    lemma_power_square(188219469409738621825101300839109888783int, p, 188, 119758346657235250549200409334756237006, 271983847713380105532781427126572288830int);
    lemma_power_square_times(188219469409738621825101300839109888783int, p, 376, 271983847713380105532781427126572288830int, 219804410516430160084112992060622458521int, 276314218785856966491056855169825181002int);
    lemma_power_square_times(188219469409738621825101300839109888783int, p, 753, 276314218785856966491056855169825181002int, 150256478924632665591526775539763219891, 295034496583182512689595782258332733387int);
    lemma_power_square_times(188219469409738621825101300839109888783int, p, 1507, 295034496583182512689595782258332733387int, 123823238847327246667433333200119549188, 299048661867723529856335863572776116795int);
    lemma_power_square(188219469409738621825101300839109888783int, p, 3015, 299048661867723529856335863572776116795int, 301080703153439123653554610836313641205int);
    lemma_power_square_times(188219469409738621825101300839109888783int, p, 6030, 301080703153439123653554610836313641205int, 22470296307681846134631154434234156727, 226462041091144477074819224531541828527int);
    lemma_power_square_times(188219469409738621825101300839109888783int, p, 12061, 226462041091144477074819224531541828527int, 270768009453197321176803251756877343207int, 328569064872291314241725667379341537745int);
    lemma_power_square_times(188219469409738621825101300839109888783int, p, 24123, 328569064872291314241725667379341537745int, 111698402089577931460977344551405727000, 34775664385502874707824823284383604408);
    lemma_power_square_times(188219469409738621825101300839109888783int, p, 48247, 34775664385502874707824823284383604408, 227952888234160125157322472671693215727int, 249392014199264969658960026498061537333int);
}

#[verifier::rlimit(60)]
proof fn lemma_power_without_11394379_part_2()
    requires
        fpow(TWO_POWER as int, 96495, M as int) == 249392014199264969658960026498061537333int,
    ensures
        fpow(TWO_POWER as int, 6323959738, M as int) == 107721223933853140552798511663236423802,
{
    let p = M as int;
    lemma_power_square_times(188219469409738621825101300839109888783int, p, 96495, 249392014199264969658960026498061537333int, 189370041631529836924350961201546378114int, 273745058928600894479133558560900992146int);
    lemma_power_square_times(188219469409738621825101300839109888783int, p, 192991, 273745058928600894479133558560900992146int, 35498156853464932589586520040503975641, 52791476110779934731282723306841619272);
    lemma_power_square_times(188219469409738621825101300839109888783int, p, 385983, 52791476110779934731282723306841619272, 194835326436026327918489646200804179128int, 191221531331334194357337960953347649768int);
    lemma_power_square_times(188219469409738621825101300839109888783int, p, 771967, 191221531331334194357337960953347649768int, 214087830330408668758335893299544815938int, 94431844380944731138275929314744130942);
    lemma_power_square(188219469409738621825101300839109888783int, p, 1543935, 94431844380944731138275929314744130942, 68121279170432009019955474744508682955);
    lemma_power_square_times(188219469409738621825101300839109888783int, p, 3087870, 68121279170432009019955474744508682955, 170776423404199723589053908481308532106int, 58390957806383841321913517454417615735);
    lemma_power_square_times(188219469409738621825101300839109888783int, p, 6175741, 58390957806383841321913517454417615735, 277102535538355611599320303786973866566int, 81494884128681045262091735195400978164);
    lemma_power_square_times(188219469409738621825101300839109888783int, p, 12351483, 81494884128681045262091735195400978164, 128920507886818630937592816117250811504, 60579805551178430381303917582504640295);
    lemma_power_square_times(188219469409738621825101300839109888783int, p, 24702967, 60579805551178430381303917582504640295, 147133798576768104021437867267137817046, 166004706357221997655265221015537671414);
    lemma_power_square(188219469409738621825101300839109888783int, p, 49405935, 166004706357221997655265221015537671414, 148090642472777380646963075663947640849);
    lemma_power_square_times(188219469409738621825101300839109888783int, p, 98811870, 148090642472777380646963075663947640849, 167853213396156247904438896505522992712, 190067192290227266870312791458379788196int);
    lemma_power_square_times(188219469409738621825101300839109888783int, p, 197623741, 190067192290227266870312791458379788196int, 48991121803016315847236280093380401986, 176061707589823525473680317195462682933int);
    lemma_power_square_times(188219469409738621825101300839109888783int, p, 395247483, 176061707589823525473680317195462682933int, 76200722745086501323779137501185642702, 179546801993104998132907914111290285460int);
    lemma_power_square(188219469409738621825101300839109888783int, p, 790494967, 179546801993104998132907914111290285460int, 64995132950600876996214015786803703023);
    lemma_power_square_times(188219469409738621825101300839109888783int, p, 1580989934, 64995132950600876996214015786803703023, 78262565462840788052223311911953928809, 310768041222031616718658749338254073912int);
    lemma_power_square(188219469409738621825101300839109888783int, p, 3161979869, 310768041222031616718658749338254073912int, 107721223933853140552798511663236423802);
}

#[verifier::rlimit(60)]
proof fn lemma_power_without_11394379_part_3()
    requires
        fpow(TWO_POWER as int, 6323959738, M as int) == 107721223933853140552798511663236423802,
    ensures
        fpow(TWO_POWER as int, 414447025403459, M as int) == 61504419222646634422464184500206998630,
{
    let p = M as int;
    lemma_power_square(188219469409738621825101300839109888783int, p, 6323959738, 107721223933853140552798511663236423802, 224518715085654843775591002237478884729int);
    lemma_power_square(188219469409738621825101300839109888783int, p, 12647919476, 224518715085654843775591002237478884729int, 54253646521952893058439038795171697898);
    lemma_power_square_times(188219469409738621825101300839109888783int, p, 25295838952, 54253646521952893058439038795171697898, 199512302233606276486213719705249654535int, 227895474500438076660797145448335460521int);
    lemma_power_square_times(188219469409738621825101300839109888783int, p, 50591677905, 227895474500438076660797145448335460521int, 158819714686293740895541408578552660739, 109397382447525572915159891586454371970);
    lemma_power_square(188219469409738621825101300839109888783int, p, 101183355811, 109397382447525572915159891586454371970, 165700459397232110305127757360730578326);
    lemma_power_square_times(188219469409738621825101300839109888783int, p, 202366711622, 165700459397232110305127757360730578326, 95492713520969548787666138200927056496, 269724666071814431587232742678579493242int);
    lemma_power_square_times(188219469409738621825101300839109888783int, p, 404733423245, 269724666071814431587232742678579493242int, 293969487776370786796282259596904736751int, 47376400734478399427106773298404330435);
    lemma_power_square(188219469409738621825101300839109888783int, p, 809466846491, 47376400734478399427106773298404330435, 87512770048659672679953553413170578811);
    lemma_power_square(188219469409738621825101300839109888783int, p, 1618933692982, 87512770048659672679953553413170578811, 36244616568162640501366100065432827831);
    lemma_power_square_times(188219469409738621825101300839109888783int, p, 3237867385964, 36244616568162640501366100065432827831, 11674362900603970667561943498531036284, 105645249928838148187753216074660613370);
    lemma_power_square(188219469409738621825101300839109888783int, p, 6475734771929, 105645249928838148187753216074660613370, 63023481255151157053240464179506325620);
    lemma_power_square(188219469409738621825101300839109888783int, p, 12951469543858, 63023481255151157053240464179506325620, 241997307387230177289119832048777000118int);
    lemma_power_square(188219469409738621825101300839109888783int, p, 25902939087716, 241997307387230177289119832048777000118int, 319799377102396250059172769871932221202int);
    lemma_power_square(188219469409738621825101300839109888783int, p, 51805878175432, 319799377102396250059172769871932221202int, 308117315622667159521405645466699957990int);
    lemma_power_square_times(188219469409738621825101300839109888783int, p, 103611756350864, 308117315622667159521405645466699957990int, 30129378510150646798869761296450671703, 324306649760111512347815778378898051059int);
    lemma_power_square_times(188219469409738621825101300839109888783int, p, 207223512701729, 324306649760111512347815778378898051059int, 223876839502482119911413079196144213235int, 61504419222646634422464184500206998630);
}

#[verifier::rlimit(60)]
proof fn lemma_power_without_11394379_part_4()
    requires
        fpow(TWO_POWER as int, 414447025403459, M as int) == 61504419222646634422464184500206998630,
    ensures
        fpow(TWO_POWER as int, 27161200256841120409, M as int) == 182699971178315469257055275082973876544int,
{
    let p = M as int;
    lemma_power_square(188219469409738621825101300839109888783int, p, 414447025403459, 61504419222646634422464184500206998630, 91263035065967208321848331693853665699);
    lemma_power_square_times(188219469409738621825101300839109888783int, p, 828894050806918, 91263035065967208321848331693853665699, 15767098726648244296623926724685437364, 337262421447753656136612233785304473596int);
    lemma_power_square_times(188219469409738621825101300839109888783int, p, 1657788101613837, 337262421447753656136612233785304473596int, 7819285520118292462488134937468021505, 242763412857302664698382018611191691762int);
    lemma_power_square_times(188219469409738621825101300839109888783int, p, 3315576203227675, 242763412857302664698382018611191691762int, 47351085462417691401124063716590019352, 15485263115588491696313081120518375770);
    lemma_power_square_times(188219469409738621825101300839109888783int, p, 6631152406455351, 15485263115588491696313081120518375770, 121895221299765144280784584662981205518, 172521161270612380141806205278449403);
    lemma_power_square(188219469409738621825101300839109888783int, p, 13262304812910703, 172521161270612380141806205278449403, 190713099252055331070373241545185181638int);
    lemma_power_square_times(188219469409738621825101300839109888783int, p, 26524609625821406, 190713099252055331070373241545185181638int, 139388667091677356801259245382987430539, 42874519999554473789152787949814947417);
    lemma_power_square(188219469409738621825101300839109888783int, p, 53049219251642813, 42874519999554473789152787949814947417, 195787821265472946446728289831724253306int);
    lemma_power_square_times(188219469409738621825101300839109888783int, p, 106098438503285626, 195787821265472946446728289831724253306int, 37366309018783472718437745429515118909, 184413919146518755477152348584904399338int);
    lemma_power_square(188219469409738621825101300839109888783int, p, 212196877006571253, 184413919146518755477152348584904399338int, 301790047228795712523595426673259187704int);
    lemma_power_square(188219469409738621825101300839109888783int, p, 424393754013142506, 301790047228795712523595426673259187704int, 160997981543097560979704723260972668154);
    lemma_power_square_times(188219469409738621825101300839109888783int, p, 848787508026285012, 160997981543097560979704723260972668154, 64231612096363110307277180846258024827, 25662476399220717467997157711402555090);
    lemma_power_square_times(188219469409738621825101300839109888783int, p, 1697575016052570025, 25662476399220717467997157711402555090, 6057573468510052202005198505353482716, 143753954484275436923536231675864257487);
    lemma_power_square(188219469409738621825101300839109888783int, p, 3395150032105140051, 143753954484275436923536231675864257487, 133750779679917539358135748800605025380);
    lemma_power_square(188219469409738621825101300839109888783int, p, 6790300064210280102, 133750779679917539358135748800605025380, 92368140915593531827999596520972014353);
    lemma_power_square_times(188219469409738621825101300839109888783int, p, 13580600128420560204, 92368140915593531827999596520972014353, 172421000242027591828938449282822434904int, 182699971178315469257055275082973876544int);
}

/// `TWO_POWER` raised to the odd part of `M - 1` without its factor `11394379`.
proof fn lemma_power_without_11394379()
    ensures
        fpow(TWO_POWER as int, 27161200256841120409, M as int) == 182699971178315469257055275082973876544int,
{
    lemma_power_first(TWO_POWER as int, M as int);
    lemma_power_without_11394379_part_1();
    lemma_power_without_11394379_part_2();
    lemma_power_without_11394379_part_3();
    lemma_power_without_11394379_part_4();
}

#[verifier::rlimit(60)]
proof fn lemma_power_without_18053749339_part_1()
    requires
        fpow(TWO_POWER as int, 1, M as int) == 188219469409738621825101300839109888783int,
    ensures
        fpow(TWO_POWER as int, 124727, M as int) == 315243378253026863472807253525826448371int,
{
    let p = M as int;
    lemma_power_square_times(188219469409738621825101300839109888783int, p, 1, 188219469409738621825101300839109888783int, 75337333997421626747215133596433633601, 295716771147097259692089194266450176956int);
    lemma_power_square_times(188219469409738621825101300839109888783int, p, 3, 295716771147097259692089194266450176956int, 188559571494059901021091998049101710273int, 23748352141335640447028119910300639369);
    lemma_power_square_times(188219469409738621825101300839109888783int, p, 7, 23748352141335640447028119910300639369, 133165424011590249158524611784238271022, 115577960998519282416713685769573897385);
    lemma_power_square(188219469409738621825101300839109888783int, p, 15, 115577960998519282416713685769573897385, 23393497368092085691806027648868274427);
    lemma_power_square(188219469409738621825101300839109888783int, p, 30, 23393497368092085691806027648868274427, 321118979448294140596202883853177733922int);
    lemma_power_square_times(188219469409738621825101300839109888783int, p, 60, 321118979448294140596202883853177733922int, 75301157787520962104314722692318462701, 134316844133903824694961253508013715897);
    lemma_power_square_times(188219469409738621825101300839109888783int, p, 121, 134316844133903824694961253508013715897, 198585399244886166599730738772547205153int, 31377614826266940258510829550461942500);
    lemma_power_square_times(188219469409738621825101300839109888783int, p, 243, 31377614826266940258510829550461942500, 307363559457210258487037261529451440337int, 134102973370865522531739914747154493265);
    lemma_power_square(188219469409738621825101300839109888783int, p, 487, 134102973370865522531739914747154493265, 116032189228021240123919233754661725510);
    lemma_power_square(188219469409738621825101300839109888783int, p, 974, 116032189228021240123919233754661725510, 71866701725693577104060230502715052622);
    lemma_power_square_times(188219469409738621825101300839109888783int, p, 1948, 71866701725693577104060230502715052622, 319273502621648067005117818567159815434int, 122216395006268188289285844030532593755);
    lemma_power_square_times(188219469409738621825101300839109888783int, p, 3897, 122216395006268188289285844030532593755, 53937621891850008150992233488093308535, 26607631025460714120660134339824438947);
    lemma_power_square(188219469409738621825101300839109888783int, p, 7795, 26607631025460714120660134339824438947, 279192042015676975041552280702001250189int);
    lemma_power_square_times(188219469409738621825101300839109888783int, p, 15590, 279192042015676975041552280702001250189int, 20907182283844397967646682865286624780, 269880520895088568438567654413691958086int);
    lemma_power_square_times(188219469409738621825101300839109888783int, p, 31181, 269880520895088568438567654413691958086int, 241620977883897938888002932502327685484int, 286055886963401645399447258106159288637int);
    lemma_power_square_times(188219469409738621825101300839109888783int, p, 62363, 286055886963401645399447258106159288637int, 330487341560300440077572738911025932173int, 315243378253026863472807253525826448371int);
}

#[verifier::rlimit(60)]
proof fn lemma_power_without_18053749339_part_2()
    requires
        fpow(TWO_POWER as int, 124727, M as int) == 315243378253026863472807253525826448371int,
    ensures
        fpow(TWO_POWER as int, 8174144318, M as int) == 87980603933074087336234282882587569471,
{
    let p = M as int;
    lemma_power_square_times(188219469409738621825101300839109888783int, p, 124727, 315243378253026863472807253525826448371int, 71814269362034031875050560929100193028, 223604990749175244209785575011975621950int);
    lemma_power_square(188219469409738621825101300839109888783int, p, 249455, 223604990749175244209785575011975621950int, 155860797525811491830481447019121337408);
    lemma_power_square(188219469409738621825101300839109888783int, p, 498910, 155860797525811491830481447019121337408, 152739057169739260210448818909417301071);
    lemma_power_square(188219469409738621825101300839109888783int, p, 997820, 152739057169739260210448818909417301071, 91262607059615635859719614449686986338);
    lemma_power_square_times(188219469409738621825101300839109888783int, p, 1995640, 91262607059615635859719614449686986338, 270302332113582101335400821730452852340int, 249662104508404587107782662273208056226int);
    lemma_power_square(188219469409738621825101300839109888783int, p, 3991281, 249662104508404587107782662273208056226int, 130577596111876386955972889219167176945);
    lemma_power_square_times(188219469409738621825101300839109888783int, p, 7982562, 130577596111876386955972889219167176945, 17211790737240491864581205174400570539, 113398621054061110348116274869344554465);
    lemma_power_square_times(188219469409738621825101300839109888783int, p, 15965125, 113398621054061110348116274869344554465, 271361375048634118133060509993168317786int, 250612760297610522734070520535963437490int);
    lemma_power_square(188219469409738621825101300839109888783int, p, 31930251, 250612760297610522734070520535963437490int, 157078981538823716648266056751381367091);
    lemma_power_square(188219469409738621825101300839109888783int, p, 63860502, 157078981538823716648266056751381367091, 87713591469691763346493381298223244021);
    lemma_power_square_times(188219469409738621825101300839109888783int, p, 127721004, 87713591469691763346493381298223244021, 35892473030646761353711271826450812849, 178607667847721350217109005091584201981int);
    lemma_power_square_times(188219469409738621825101300839109888783int, p, 255442009, 178607667847721350217109005091584201981int, 336334930720790445303310348487859682543int, 55558593760814482014198766209905395506);
    lemma_power_square_times(188219469409738621825101300839109888783int, p, 510884019, 55558593760814482014198766209905395506, 328576399242960869489464242743195607026int, 271164471130651507905870203816861458390int);
    lemma_power_square_times(188219469409738621825101300839109888783int, p, 1021768039, 271164471130651507905870203816861458390int, 53402664406219326968494330544913978586, 174830391863104156674305102598390111591int);
    lemma_power_square_times(188219469409738621825101300839109888783int, p, 2043536079, 174830391863104156674305102598390111591int, 8531042543966055238219171098321730588, 153204984429109879197269068560605670155);
    lemma_power_square(188219469409738621825101300839109888783int, p, 4087072159, 153204984429109879197269068560605670155, 87980603933074087336234282882587569471);
}

#[verifier::rlimit(60)]
proof fn lemma_power_without_18053749339_part_3()
    requires
        fpow(TWO_POWER as int, 8174144318, M as int) == 87980603933074087336234282882587569471,
    ensures
        fpow(TWO_POWER as int, 535700722066895, M as int) == 18032125260625957066471572226595728210,
{
    let p = M as int;
    lemma_power_square_times(188219469409738621825101300839109888783int, p, 8174144318, 87980603933074087336234282882587569471, 174251619031130519080596064436935523138int, 3626801389168985817470309234434049522);
    lemma_power_square(188219469409738621825101300839109888783int, p, 16348288637, 3626801389168985817470309234434049522, 262207367030816611168801361777318787568int);
    lemma_power_square_times(188219469409738621825101300839109888783int, p, 32696577274, 262207367030816611168801361777318787568int, 86455450840657771667529815455512309552, 221250928414549657036265794210724635075int);
    lemma_power_square(188219469409738621825101300839109888783int, p, 65393154549, 221250928414549657036265794210724635075int, 2089735032626311314908215184886839735);
    lemma_power_square(188219469409738621825101300839109888783int, p, 130786309098, 2089735032626311314908215184886839735, 17943785984072331709488595481146058717);
    lemma_power_square_times(188219469409738621825101300839109888783int, p, 261572618196, 17943785984072331709488595481146058717, 320664781624344292509824757091306164295int, 326327073031463238662763246183857982754int);
    lemma_power_square(188219469409738621825101300839109888783int, p, 523145236393, 326327073031463238662763246183857982754int, 311076289879003086540871838227635773736int);
    lemma_power_square_times(188219469409738621825101300839109888783int, p, 1046290472786, 311076289879003086540871838227635773736int, 183808618190700203564862852822309507819int, 30622831344034186443896832166924691797);
    lemma_power_square_times(188219469409738621825101300839109888783int, p, 2092580945573, 30622831344034186443896832166924691797, 186043378880555420691481428556609680992int, 84720510674701289539853437064026267346);
    lemma_power_square_times(188219469409738621825101300839109888783int, p, 4185161891147, 84720510674701289539853437064026267346, 106479203753019960367977149075210923310, 274823082655792215652881757318411033075int);
    lemma_power_square(188219469409738621825101300839109888783int, p, 8370323782295, 274823082655792215652881757318411033075int, 51847823789092700202484311703169102093);
    lemma_power_square(188219469409738621825101300839109888783int, p, 16740647564590, 51847823789092700202484311703169102093, 311481444809982579684784679673646564457int);
    lemma_power_square_times(188219469409738621825101300839109888783int, p, 33481295129180, 311481444809982579684784679673646564457int, 11312280437189231726829582046917010561, 272803465225006488882600362512222890832int);
    lemma_power_square_times(188219469409738621825101300839109888783int, p, 66962590258361, 272803465225006488882600362512222890832int, 269931932537212098737714725114495813377int, 274629632837927781126663461727795520349int);
    lemma_power_square_times(188219469409738621825101300839109888783int, p, 133925180516723, 274629632837927781126663461727795520349int, 145204039087725377492709805554498476384, 115100422370186989023897983624263225735);
    lemma_power_square_times(188219469409738621825101300839109888783int, p, 267850361033447, 115100422370186989023897983624263225735, 101208700779596430736746742632298076317, 18032125260625957066471572226595728210);
}

#[verifier::rlimit(60)]
proof fn lemma_power_without_18053749339_part_4()
    requires
        fpow(TWO_POWER as int, 535700722066895, M as int) == 18032125260625957066471572226595728210,
    ensures
        fpow(TWO_POWER as int, 17142423106140649, M as int) == 40664971873991271173740595132179155414,
{
    let p = M as int;
    lemma_power_square(188219469409738621825101300839109888783int, p, 535700722066895, 18032125260625957066471572226595728210, 152512357605384448733870568189703171626);
    lemma_power_square_times(188219469409738621825101300839109888783int, p, 1071401444133790, 152512357605384448733870568189703171626, 307481457973964960187773963945733854350int, 49908069774275434444042430172127397788);
    lemma_power_square(188219469409738621825101300839109888783int, p, 2142802888267581, 49908069774275434444042430172127397788, 157034657517817011438364670177184714872);
    lemma_power_square(188219469409738621825101300839109888783int, p, 4285605776535162, 157034657517817011438364670177184714872, 184690469607089778415226285700492513039int);
    lemma_power_square_times(188219469409738621825101300839109888783int, p, 8571211553070324, 184690469607089778415226285700492513039int, 233185545935506949356569629111576060236int, 40664971873991271173740595132179155414);
}

/// `TWO_POWER` raised to the odd part of `M - 1` without its factor `18053749339`.
proof fn lemma_power_without_18053749339()
    ensures
        fpow(TWO_POWER as int, 17142423106140649, M as int) == 40664971873991271173740595132179155414,
{
    lemma_power_first(TWO_POWER as int, M as int);
    lemma_power_without_18053749339_part_1();
    lemma_power_without_18053749339_part_2();
    lemma_power_without_18053749339_part_3();
    lemma_power_without_18053749339_part_4();
}

/// `M - 1` is `2^40` times the odd primes `29, 181, 286619, 11394379, 18053749339`.
proof fn lemma_factors()
    ensures
        M - 1 == pow2(40) * ODD_PART,
        ODD_PART == 29 * 181 * 286619 * 11394379 * 18053749339,
        pow2(40) == 1099511627776,
        pow2(39) == 549755813888,
{
    lemma2_to64();
    lemma2_to64_rest();
}

/// A prime that divides `M - 1` is two or one of its odd prime factors.
proof fn lemma_prime_factors(s: int)
    requires
        is_prime(s),
        divides(s, M - 1),
    ensures
        s == 2 || s == 29 || s == 181 || s == 286619 || s == 11394379 || s == 18053749339,
{
    lemma_factors();
    lemma_pow2(40);
    lemma_pow_positive(2, 40);
    lemma_euclid(s, pow2(40) as int, ODD_PART as int);
    if divides(s, pow2(40) as int) {
        lemma_prime_divides_power_of_two(s, 40);
    } else {
        assert(29 * 10671896890391209266371759 == 309485009821345068724781011);
        lemma_euclid(s, 29, 10671896890391209266371759);
        if divides(s, 29) {
            lemma_prime_29();
            lemma_prime_divides_prime(s, 29);
        } else {
            assert(181 * 58960756300503918598739 == 10671896890391209266371759);
            lemma_euclid(s, 181, 58960756300503918598739);
            if divides(s, 181) {
                lemma_prime_181();
                lemma_prime_divides_prime(s, 181);
            } else {
                assert(286619 * 205711262339565481 == 58960756300503918598739);
                lemma_euclid(s, 286619, 205711262339565481);
                if divides(s, 286619) {
                    lemma_prime_286619();
                    lemma_prime_divides_prime(s, 286619);
                } else {
                    assert(11394379 * 18053749339 == 205711262339565481);
                    lemma_euclid(s, 11394379, 18053749339);
                    if divides(s, 11394379) {
                        lemma_prime_11394379();
                        lemma_prime_divides_prime(s, 11394379);
                    } else {
                        lemma_prime_18053749339();
                        lemma_prime_divides_prime(s, 18053749339);
                    }
                }
            }
        }
    }
}

/// `GENERATOR` has the order `M - 1`.
pub proof fn lemma_generator_order()
    ensures
        is_order(GENERATOR as int, (M - 1) as nat, M as int),
{
    let g = GENERATOR as int;
    let p = M as int;
    let n = (M - 1) as nat;
    lemma_factors();
    lemma_two_power();
    lemma_generator_to_root();
    lemma_fp128_root_squares();
    lemma2_to64();
    lemma2_to64_rest();
    // g^(M - 1) == G^(2^40) == (G^(2^39))^2 == 1
    lemma_fpow_mul(g, ODD_PART as nat, 549755813888, p);
    lemma_fpow_mul(g, ODD_PART as nat, 1099511627776, p);
    lemma_fpow_mul(G as int, 549755813888, 2, p);
    assert(ODD_PART * 549755813888 == 170141183460469231731687278976872480768);
    assert(ODD_PART * 1099511627776 == M - 1);
    assert(549755813888nat * 2 == 1099511627776);
    assert(fpow(G as int, 549755813888, p) == M - 1);
    assert(fpow(g, 170141183460469231731687278976872480768, p) == M - 1);
    assert(fpow(g, n, p) == 1) by {
        lemma_power_first(M - 1, p);
        lemma_power_square(M - 1, p, 1, M - 1, 1);
    }
    assert forall|s: int| is_prime(s) && #[trigger] divides(s, n as int) implies fpow(
        g,
        (n as int / s) as nat,
        p,
    ) != 1 by {
        lemma_prime_factors(s);
        if s == 2 {
            lemma_fundamental_div_mod_converse(n as int, 2, 170141183460469231731687278976872480768, 0);
        }
        if s == 29 {
            lemma_fundamental_div_mod_converse(n as int, 29, 11733874721411671153909467515646377984, 0);
            lemma_power_without_29();
            lemma_fpow_mul(g, 1099511627776, 10671896890391209266371759, p);
            assert(1099511627776nat * 10671896890391209266371759 == 11733874721411671153909467515646377984);
        }
        if s == 181 {
            lemma_fundamental_div_mod_converse(n as int, 181, 1880013076911262229079417447258259456, 0);
            lemma_power_without_181();
            lemma_fpow_mul(g, 1099511627776, 1709861932714613639363431, p);
            assert(1099511627776nat * 1709861932714613639363431 == 1880013076911262229079417447258259456);
        }
        if s == 286619 {
            lemma_fundamental_div_mod_converse(n as int, 286619, 1187228923835958060921901750943744, 0);
            lemma_power_without_286619();
            lemma_fpow_mul(g, 1099511627776, 1079778416020379209769, p);
            assert(1099511627776nat * 1079778416020379209769 == 1187228923835958060921901750943744);
        }
        if s == 11394379 {
            lemma_fundamental_div_mod_converse(n as int, 11394379, 29864055506749289580711204880384, 0);
            lemma_power_without_11394379();
            lemma_fpow_mul(g, 1099511627776, 27161200256841120409, p);
            assert(1099511627776nat * 27161200256841120409 == 29864055506749289580711204880384);
        }
        if s == 18053749339 {
            lemma_fundamental_div_mod_converse(n as int, 18053749339, 18848293533457619003191066624, 0);
            lemma_power_without_18053749339();
            lemma_fpow_mul(g, 1099511627776, 17142423106140649, p);
            assert(1099511627776nat * 17142423106140649 == 18848293533457619003191066624);
        }
    }
    lemma_full_order(g, n, p);
}

#[verifier::rlimit(60)]
proof fn lemma_five_to_half_part_1()
    requires
        fpow(5, 1, M as int) == 5,
    ensures
        fpow(5, 131071, M as int) == 133886000811025234812057196430095872900,
{
    let p = M as int;
    lemma_power_square_times(5, p, 1, 5, 25, 125);
    lemma_power_square_times(5, p, 3, 125, 15625, 78125);
    lemma_power_square_times(5, p, 7, 78125, 6103515625, 30517578125);
    lemma_power_square_times(5, p, 15, 30517578125, 931322574615478515625, 4656612873077392578125);
    lemma_power_square_times(5, p, 31, 4656612873077392578125, 230182407126972872439060912344044493374int, 130064934872048971805180887858987582259);
    lemma_power_square_times(5, p, 63, 130064934872048971805180887858987582259, 93978471013096406363307328506743459429, 129609988144543568353162084579972335608);
    lemma_power_square_times(5, p, 127, 129609988144543568353162084579972335608, 57948391646186652779701826792156353336, 289741958230933263898509133960781766680int);
    lemma_power_square_times(5, p, 255, 289741958230933263898509133960781766680int, 90730023678835760824268117906040872099, 113367751473240340657966031576459398958);
    lemma_power_square_times(5, p, 511, 113367751473240340657966031576459398958, 331365780107334160121335547141616608656int, 295699432852916946753179503893103197132int);
    lemma_power_square_times(5, p, 1023, 295699432852916946753179503893103197132int, 30183407184045696973998524001361005303, 150917035920228484869992620006805026515);
    lemma_power_square_times(5, p, 2047, 150917035920228484869992620006805026515, 142567705549919109997321443927457911384, 32273793907718623059858103729799633846);
    lemma_power_square_times(5, p, 4095, 32273793907718623059858103729799633846, 37976321253345573283786414967620950507, 189881606266727866418932074838104752535int);
    lemma_power_square_times(5, p, 8191, 189881606266727866418932074838104752535int, 290606070755134451199408420846078322899int, 91900886091918402143543872415411768347);
    lemma_power_square_times(5, p, 16383, 91900886091918402143543872415411768347, 292782358104326583337814827173608020469int, 102782322837879062835575904053060256197);
    lemma_power_square_times(5, p, 32767, 102782322837879062835575904053060256197, 107554285523092498961476021553531105621, 197489060694524031344005549813910566568int);
    lemma_power_square_times(5, p, 65535, 197489060694524031344005549813910566568int, 26777200162205046962411439286019174580, 133886000811025234812057196430095872900);
}

#[verifier::rlimit(60)]
proof fn lemma_five_to_half_part_2()
    requires
        fpow(5, 131071, M as int) == 133886000811025234812057196430095872900,
    ensures
        fpow(5, 8589934591, M as int) == 294598722664687038052787532371029490085int,
{
    let p = M as int;
    lemma_power_square_times(5, p, 131071, 133886000811025234812057196430095872900, 297369727365439013623889818250472383143int, 125719169143441214265950859437382069567);
    lemma_power_square_times(5, p, 262143, 125719169143441214265950859437382069567, 21031741167690456811107693745690950621, 105158705838452284055538468728454753105);
    lemma_power_square_times(5, p, 524287, 105158705838452284055538468728454753105, 299786943315079266762977634601743869046int, 137805248891642479961389941193739499082);
    lemma_power_square_times(5, p, 1048575, 137805248891642479961389941193739499082, 335523364956021486868892459605352231144int, 316487357096353580490964066211781309572int);
    lemma_power_square_times(5, p, 2097151, 316487357096353580490964066211781309572int, 73276267521853386347861436544374960388, 26098970688328468275932624768129840403);
    lemma_power_square_times(5, p, 4194303, 26098970688328468275932624768129840403, 192906978929483709972465249929600180311int, 283970160805541622935577133740510978481int);
    lemma_power_square_times(5, p, 8388607, 283970160805541622935577133740510978481int, 189251422226129103372813274653248028013int, 265692377288768589937317257358750216991int);
    lemma_power_square_times(5, p, 16777215, 265692377288768589937317257358750216991int, 175713354035636021600933492899256872774int, 198002036336303181077918348588794440796int);
    lemma_power_square_times(5, p, 33554431, 198002036336303181077918348588794440796int, 278831494517252680455761127467293744281int, 33028004902509548425307405521488875257);
    lemma_power_square_times(5, p, 67108863, 33028004902509548425307405521488875257, 14486991123039105592521389224164591487, 72434955615195527962606946120822957435);
    lemma_power_square_times(5, p, 134217727, 72434955615195527962606946120822957435, 112812957616275290583671112351110397067, 223782421160437989454981003801807023798int);
    lemma_power_square_times(5, p, 268435455, 223782421160437989454981003801807023798int, 324135723696707444132136080404554451242int, 259549150799783366807182170207792410062int);
    lemma_power_square_times(5, p, 536870911, 259549150799783366807182170207792410062int, 133648791808171470978004067574194619570, 327961592119918891426645779917228136313int);
    lemma_power_square_times(5, p, 1073741823, 327961592119918891426645779917228136313int, 273018819923950803974801869414371651033int, 3964631936000166020511115256878409017);
    lemma_power_square_times(5, p, 2147483647, 3964631936000166020511115256878409017, 289488009554650133288591205028771634091int, 86310580089496812589457793328878324307);
    lemma_power_square_times(5, p, 4294967295, 86310580089496812589457793328878324307, 58919744532937407610557506474205898017, 294598722664687038052787532371029490085int);
}

#[verifier::rlimit(60)]
proof fn lemma_five_to_half_part_3()
    requires
        fpow(5, 8589934591, M as int) == 294598722664687038052787532371029490085int,
    ensures
        fpow(5, 562949953421311, M as int) == 100351148138567314083640590214682180958,
{
    let p = M as int;
    lemma_power_square_times(5, p, 8589934591, 294598722664687038052787532371029490085int, 326736853215369867868932003508949115925int, 272554798393095485491161785729765733477int);
    lemma_power_square_times(5, p, 17179869183, 272554798393095485491161785729765733477int, 238163640660131646583610485818383862742int, 169971102537842842527928755230684429099);
    lemma_power_square_times(5, p, 34359738367, 169971102537842842527928755230684429099, 185371079348520647417582232335931555767int, 246290662900726310161162045772167855761int);
    lemma_power_square_times(5, p, 68719476735, 246290662900726310161162045772167855761int, 32537782221339198985419912197047714662, 162688911106695994927099560985238573310);
    lemma_power_square_times(5, p, 137438953471, 162688911106695994927099560985238573310, 318727178026206034295758228008492680644int, 232506422447276317625292908227483557072int);
    lemma_power_square_times(5, p, 274877906943, 232506422447276317625292908227483557072int, 307435910237764742110505485666406799813int, 176050083505069856699029196517054152917int);
    lemma_power_square_times(5, p, 549755813887, 176050083505069856699029196517054152917int, 243798711006482000888377599820841827841int, 198146454269594614051764325242974254594int);
    lemma_power_square_times(5, p, 1099511627775, 198146454269594614051764325242974254594int, 24186055556935350931243645113617220189, 120930277784676754656218225568086100945);
    lemma_power_square_times(5, p, 2199023255551, 120930277784676754656218225568086100945, 304282595288646801677773852258211684991int, 160283508759480154535371029476078578807);
    lemma_power_square_times(5, p, 4398046511103, 160283508759480154535371029476078578807, 14461348426588414879319059887046436389, 72306742132942074396595299435232181945);
    lemma_power_square_times(5, p, 8796093022207, 72306742132942074396595299435232181945, 171042491426446575855478713477702471425int, 174647723290355952350644451481022434051int);
    lemma_power_square_times(5, p, 17592186044415, 174647723290355952350644451481022434051int, 173848173316002443248872629312937845515int, 188676132738135289317614030657199304501int);
    lemma_power_square_times(5, p, 35184372088831, 188676132738135289317614030657199304501int, 187895363840921958017620273056902765024int, 258912085362732863161352249377023902046int);
    lemma_power_square_times(5, p, 70368744177663, 258912085362732863161352249377023902046int, 198170733833817354641822207016943310598int, 310288935327209846282361919177226629916int);
    lemma_power_square_times(5, p, 140737488355327, 310288935327209846282361919177226629916int, 178262149311455030081826457750026849145int, 210746012715398223482383172842644322651int);
    lemma_power_square_times(5, p, 281474976710655, 210746012715398223482383172842644322651int, 88126703011901155509403029633685428499, 100351148138567314083640590214682180958);
}

#[verifier::rlimit(60)]
proof fn lemma_five_to_half_part_4()
    requires
        fpow(5, 562949953421311, M as int) == 100351148138567314083640590214682180958,
    ensures
        fpow(5, 36893488147419103231, M as int) == 1448219880265723720707231195956235485,
{
    let p = M as int;
    lemma_power_square_times(5, p, 562949953421311, 100351148138567314083640590214682180958, 19950508186081701686121465952040470756, 99752540930408508430607329760202353780);
    lemma_power_square_times(5, p, 1125899906842623, 99752540930408508430607329760202353780, 92984209241722472126467307280348623715, 124638679287673897168961978447998157038);
    lemma_power_square_times(5, p, 2251799813685247, 124638679287673897168961978447998157038, 338228141149559084474013627610916493304int, 330011238064041568516569906239602620372int);
    lemma_power_square_times(5, p, 4503599627370495, 330011238064041568516569906239602620372int, 22668956707038174157910351778818646321, 113344783535190870789551758894093231605);
    lemma_power_square_times(5, p, 9007199254740991, 113344783535190870789551758894093231605, 273369564378381673329017445182532336949int, 5718354208154512791588994097681838597);
    lemma_power_square_times(5, p, 18014398509481983, 5718354208154512791588994097681838597, 303027520253336670113774508232190057568int, 154008133582929496715374309345970441692);
    lemma_power_square_times(5, p, 36028797018963967, 154008133582929496715374309345970441692, 57814148051583738947906973238320980088, 289070740257918694739534866191604900440int);
    lemma_power_square_times(5, p, 72057594037927935, 289070740257918694739534866191604900440int, 104292148159574829261223339388952123948, 181178373876935682842742138991015658203int);
    lemma_power_square_times(5, p, 144115188075855871, 181178373876935682842742138991015658203int, 146613186881540152694587508395251328797, 52501200565823836546188426068766720911);
    lemma_power_square_times(5, p, 288230376151711743, 52501200565823836546188426068766720911, 282332217982823234354807417448681524751int, 50531622230362317920538855428427777607);
    lemma_power_square_times(5, p, 576460752303423487, 50531622230362317920538855428427777607, 134479484708386079169867100861462548302, 332115056620991932385960946353567779973int);
    lemma_power_square_times(5, p, 1152921504606846975, 332115056620991932385960946353567779973int, 284217291668418112431849843088124430003int, 59956990658336708305750983625642303867);
    lemma_power_square_times(5, p, 2305843009213693951, 59956990658336708305750983625642303867, 205305306399061144811876902066859240318int, 5679431232490333669260836473061316979);
    lemma_power_square_times(5, p, 4611686018427387903, 5679431232490333669260836473061316979, 240216431141385712095342307705101678102int, 180235054944113170086587864664273505899int);
    lemma_power_square_times(5, p, 9223372036854775807, 180235054944113170086587864664273505899int, 291984264893189885958858691382349144370int, 98791856782195575940795225096765875702);
    lemma_power_square_times(5, p, 18446744073709551615, 98791856782195575940795225096765875702, 289643976053144744141446239191247097, 1448219880265723720707231195956235485);
}

#[verifier::rlimit(60)]
proof fn lemma_five_to_half_part_5()
    requires
        fpow(5, 36893488147419103231, M as int) == 1448219880265723720707231195956235485,
    ensures
        fpow(5, 2417851639229258349412351, M as int) == 177990384156086275214107740677643519404int,
{
    let p = M as int;
    lemma_power_square_times(5, p, 36893488147419103231, 1448219880265723720707231195956235485, 322501521062967061179014385289984842571int, 251378137631081452041573694634944366707int);
    lemma_power_square_times(5, p, 73786976294838206463, 251378137631081452041573694634944366707int, 322436744207966526336814784341067218475int, 251054253356078777830575689890356246227int);
    lemma_power_square_times(5, p, 147573952589676412927, 251054253356078777830575689890356246227int, 88306428515535567985748429215618430446, 101249775656739376465367588124347190693);
    lemma_power_square_times(5, p, 295147905179352825855, 101249775656739376465367588124347190693, 114267569094403377145470933447577138877, 231055478551078422263980109284140732848int);
    lemma_power_square_times(5, p, 590295810358705651711, 231055478551078422263980109284140732848int, 316501694691899364573904712866171726613int, 221379005775742969016025332515878786917int);
    lemma_power_square_times(5, p, 1180591620717411303423, 221379005775742969016025332515878786917int, 235385975052218472172144089388505268202int, 156082774498276970470596773081291456399);
    lemma_power_square_times(5, p, 2361183241434822606847, 156082774498276970470596773081291456399, 246422954019338011801372172709337175579int, 211267669333874668616737189685450993284int);
    lemma_power_square_times(5, p, 4722366482869645213695, 211267669333874668616737189685450993284int, 230407448272878369143086373047090122472int, 131190140601576455325308191374215727749);
    lemma_power_square_times(5, p, 9444732965739290427391, 131190140601576455325308191374215727749, 133080434159398065974860801257349341151, 325119803876051866410929448333001744218int);
    lemma_power_square_times(5, p, 18889465931478580854783, 325119803876051866410929448333001744218int, 114868705875070307215339346124976784881, 234061162454413072613322172671138962868int);
    lemma_power_square_times(5, p, 37778931862957161709567, 234061162454413072613322172671138962868int, 223443214095030925463179174020962527681int, 96368969712339236925772196243577753794);
    lemma_power_square_times(5, p, 75557863725914323419135, 96368969712339236925772196243577753794, 237000406663217379280100442291593547507int, 164154932553271506010378537596732852924);
    lemma_power_square_times(5, p, 151115727451828646838271, 164154932553271506010378537596732852924, 63842659409263148850678717050022956723, 319213297046315744253393585250114783615int);
    lemma_power_square_times(5, p, 302231454903657293676543, 319213297046315744253393585250114783615int, 298218457735352909094782782857280694470int, 129962820993010691620415682471423626202);
    lemma_power_square_times(5, p, 604462909807314587353087, 129962820993010691620415682471423626202, 287727587814065589379054984269536441510int, 77508471386574093041776689532702361402);
    lemma_power_square_times(5, p, 1208925819614629174706175, 77508471386574093041776689532702361402, 239767496983780333120846282907775680803int, 177990384156086275214107740677643519404int);
}

#[verifier::rlimit(60)]
proof fn lemma_five_to_half_part_6()
    requires
        fpow(5, 2417851639229258349412351, M as int) == 177990384156086275214107740677643519404int,
    ensures
        fpow(5, 158456325028528675187087877632, M as int) == 81287911745945528453949498887368007922,
{
    let p = M as int;
    lemma_power_square_times(5, p, 2417851639229258349412351, 177990384156086275214107740677643519404int, 75007702329232437180825761529229745369, 34756144725223722440754249692403765308);
    lemma_power_square(5, p, 4835703278458516698824703, 34756144725223722440754249692403765308, 221624511750686637576534174660783049066int);
    lemma_power_square_times(5, p, 9671406556917033397649406, 221624511750686637576534174660783049066int, 51486120680642072817880899802103171193, 257430603403210364089404499010515855965int);
    lemma_power_square(5, p, 19342813113834066795298813, 257430603403210364089404499010515855965int, 44186208433094137006026127257474477662);
    lemma_power_square(5, p, 38685626227668133590597626, 44186208433094137006026127257474477662, 297778269978042803422354471543811560306int);
    lemma_power_square_times(5, p, 77371252455336267181195252, 297778269978042803422354471543811560306int, 283818181474095437671748288860712246108int, 57961439686723334505243212488581384392);
    lemma_power_square_times(5, p, 154742504910672534362390505, 57961439686723334505243212488581384392, 15862725026157590378055076169864677132, 79313625130787951890275380849323385660);
    lemma_power_square(5, p, 309485009821345068724781011, 79313625130787951890275380849323385660, 176351301729383823763126229496860806914int);
    lemma_power_square(5, p, 618970019642690137449562022, 176351301729383823763126229496860806914int, 194024075857667530790410386936203114572int);
    lemma_power_square(5, p, 1237940039285380274899124044, 194024075857667530790410386936203114572int, 111712935319038839484351550099415530504);
    lemma_power_square(5, p, 2475880078570760549798248088, 111712935319038839484351550099415530504, 165600229844718171997250168949176340428);
    lemma_power_square(5, p, 4951760157141521099596496176, 165600229844718171997250168949176340428, 18257728774997435488664847012917645780);
    lemma_power_square(5, p, 9903520314283042199192992352, 18257728774997435488664847012917645780, 41781794934015842520197019778479291330);
    lemma_power_square(5, p, 19807040628566084398385984704, 41781794934015842520197019778479291330, 323492271580652192143082487735323492667int);
    lemma_power_square(5, p, 39614081257132168796771969408, 323492271580652192143082487735323492667int, 136939081734920780783875488935780062205);
    lemma_power_square(5, p, 79228162514264337593543938816, 136939081734920780783875488935780062205, 81287911745945528453949498887368007922);
}

#[verifier::rlimit(60)]
proof fn lemma_five_to_half_part_7()
    requires
        fpow(5, 158456325028528675187087877632, M as int) == 81287911745945528453949498887368007922,
    ensures
        fpow(5, 10384593717069655257060991148490752, M as int) == 52686393275485801491691088507647010187,
{
    let p = M as int;
    lemma_power_square(5, p, 158456325028528675187087877632, 81287911745945528453949498887368007922, 32970075366553564120105319408548664842);
    lemma_power_square(5, p, 316912650057057350374175755264, 32970075366553564120105319408548664842, 315245430648540015168417425740227155361int);
    lemma_power_square(5, p, 633825300114114700748351510528, 315245430648540015168417425740227155361int, 226333478916607514913560971007637335327int);
    lemma_power_square(5, p, 1267650600228229401496703021056, 226333478916607514913560971007637335327int, 129768135610278884647431492354917545164);
    lemma_power_square(5, p, 2535301200456458802993406042112, 129768135610278884647431492354917545164, 76558129577009365289033270325782597970);
    lemma_power_square(5, p, 5070602400912917605986812084224, 76558129577009365289033270325782597970, 194909243901714626796196547402891614030int);
    lemma_power_square(5, p, 10141204801825835211973624168448, 194909243901714626796196547402891614030int, 309283741999769785322642555127663502669int);
    lemma_power_square(5, p, 20282409603651670423947248336896, 309283741999769785322642555127663502669int, 248040821586555231525503252888764600123int);
    lemma_power_square(5, p, 40564819207303340847894496673792, 248040821586555231525503252888764600123int, 5339027586391537406114949257732174575);
    lemma_power_square(5, p, 81129638414606681695788993347584, 5339027586391537406114949257732174575, 287505831119355467564335010613474217346int);
    lemma_power_square(5, p, 162259276829213363391577986695168, 287505831119355467564335010613474217346int, 272941766085586364445159689884554625443int);
    lemma_power_square(5, p, 324518553658426726783155973390336, 272941766085586364445159689884554625443int, 10812053116876215449075281772999804960);
    lemma_power_square(5, p, 649037107316853453566311946780672, 10812053116876215449075281772999804960, 246212599897154343181833787555742956137int);
    lemma_power_square(5, p, 1298074214633706907132623893561344, 246212599897154343181833787555742956137int, 9139654033750034279658871236643218184);
    lemma_power_square(5, p, 2596148429267413814265247787122688, 9139654033750034279658871236643218184, 139092251107603758523065451043029975510);
    lemma_power_square(5, p, 5192296858534827628530495574245376, 139092251107603758523065451043029975510, 52686393275485801491691088507647010187);
}

#[verifier::rlimit(60)]
proof fn lemma_five_to_half_part_8()
    requires
        fpow(5, 10384593717069655257060991148490752, M as int) == 52686393275485801491691088507647010187,
    ensures
        fpow(5, 170141183460469231731687278976872480768, M as int) == 340282366920938463463374557953744961536int,
{
    let p = M as int;
    lemma_power_square(5, p, 10384593717069655257060991148490752, 52686393275485801491691088507647010187, 211507177544275545216643601020028763758int);
    lemma_power_square(5, p, 20769187434139310514121982296981504, 211507177544275545216643601020028763758int, 103432883272830519175422808369552120587);
    lemma_power_square(5, p, 41538374868278621028243964593963008, 103432883272830519175422808369552120587, 85386090121088898281411100882713731611);
    lemma_power_square(5, p, 83076749736557242056487929187926016, 85386090121088898281411100882713731611, 139046386245619575256861950711838639633);
    lemma_power_square(5, p, 166153499473114484112975858375852032, 139046386245619575256861950711838639633, 254471685132694145697813827371901646510int);
    lemma_power_square(5, p, 332306998946228968225951716751704064, 254471685132694145697813827371901646510int, 2518709005893051869366146482948202771);
    lemma_power_square(5, p, 664613997892457936451903433503408128, 2518709005893051869366146482948202771, 310901184918365887216172550333279268782int);
    lemma_power_square(5, p, 1329227995784915872903806867006816256, 310901184918365887216172550333279268782int, 73152862470255002299904615218049254426);
    lemma_power_square(5, p, 2658455991569831745807613734013632512, 73152862470255002299904615218049254426, 148274391334709597046194376594991454401);
    lemma_power_square(5, p, 5316911983139663491615227468027265024, 148274391334709597046194376594991454401, 177163815491556666773578150685041292257int);
    lemma_power_square(5, p, 10633823966279326983230454936054530048, 177163815491556666773578150685041292257int, 207780475876815746145724302740566066789int);
    lemma_power_square(5, p, 21267647932558653966460909872109060096, 207780475876815746145724302740566066789int, 215461094455166043855249150037908117929int);
    lemma_power_square(5, p, 42535295865117307932921819744218120192, 215461094455166043855249150037908117929int, 227605400907528469561203326827972759358int);
    lemma_power_square(5, p, 85070591730234615865843639488436240384, 227605400907528469561203326827972759358int, 340282366920938463463374557953744961536int);
}

/// Five raised to half of `M - 1` is minus one: five is no square.
proof fn lemma_five_to_half()
    ensures
        fpow(5, 170141183460469231731687278976872480768, M as int) == 340282366920938463463374557953744961536int,
{
    lemma_power_first(5, M as int);
    lemma_five_to_half_part_1();
    lemma_five_to_half_part_2();
    lemma_five_to_half_part_3();
    lemma_five_to_half_part_4();
    lemma_five_to_half_part_5();
    lemma_five_to_half_part_6();
    lemma_five_to_half_part_7();
    lemma_five_to_half_part_8();
}

/// Five is no square modulo `M`: raised to `(M - 1) / 2` it is minus one.
pub proof fn lemma_five_is_no_square()
    ensures
        fpow(5, ((M - 1) / 2) as nat, M as int) == M - 1,
{
    lemma_five_to_half();
}

/// Every nonzero residue modulo `M` has an inverse, and is taken to one by the
/// exponent `M - 1`.
pub proof fn lemma_units(x: int)
    requires
        0 < x < M,
    ensures
        is_unit(x, M as int),
        fpow(x, (M - 1) as nat, M as int) == 1,
{
    lemma_generator_order();
    lemma_all_units(GENERATOR as int, M as int, x);
}

/// `M` is a prime.
pub proof fn lemma_modulus_is_prime()
    ensures
        is_prime(M as int),
{
    assert forall|x: int| 0 < x < M implies #[trigger] is_unit(x, M as int) by {
        lemma_units(x);
    }
    lemma_units_make_prime(M as int);
}

} // verus!
