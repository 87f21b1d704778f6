//! Every nonzero element of the 252-bit field has an inverse.
//!
//! The residue `3` has the order `M - 1`: raised to `M - 1` it is one, and raised to
//! `(modulus() - 1) / s` it is not, for each of the primes `s` that divide
//! `modulus() - 1 = 2^192 * 5 * 7 * 98714381 * 166848103`. So its powers are all the nonzero
//! residues. The powers that show this are reached by squaring and multiplying,
//! one step after the other, and are listed here with the steps.

use vstd::prelude::*;
use vstd::arithmetic::div_mod::lemma_fundamental_div_mod_converse;
use vstd::arithmetic::power::lemma_pow_positive;
use vstd::arithmetic::power2::{pow2, lemma_pow2, lemma_pow2_adds, lemma2_to64, lemma2_to64_rest};
use crate::field::modular::{fpow, is_unit};
use crate::field::number_theory::{
    divides, is_prime, is_order, lemma_all_units, lemma_euclid, lemma_fpow_mul, lemma_full_order,
    lemma_power_first, lemma_power_square, lemma_power_square_times, lemma_prime_by_trial,
    lemma_prime_divides_power_of_two, lemma_prime_divides_prime, lemma_units_make_prime,
};
use crate::field::roots::lemma_fp252_root_squares;
use crate::field::fp252::{modulus, root};

verus! {

/// The residue whose powers are all the nonzero residues.
pub const GENERATOR: u64 = 3;

/// The odd part of `M - 1`.
pub const ODD_PART: u64 = 576460752303423505;

/// `GENERATOR` raised to `2^192`.
pub open spec fn two_power() -> int {
    435370109474914714129521158467059741824376378869643726680529596415811661392int
}

/// No number from two up to the square root of `5` divides it.
proof fn lemma_trial_5(c: u32)
    requires
        2 <= c < 3,
    ensures
        5u32 % c != 0,
{
    assert(2 <= c && c < 3 ==> 5u32 % c != 0) by (bit_vector);
}

/// `5` is a prime.
pub proof fn lemma_prime_5()
    ensures
        is_prime(5),
{
    assert forall|c: int| 2 <= c < 3 implies !#[trigger] divides(c, 5) by {
        lemma_trial_5(c as u32);
    }
    lemma_prime_by_trial(5, 3);
}

/// No number from two up to the square root of `7` divides it.
proof fn lemma_trial_7(c: u32)
    requires
        2 <= c < 3,
    ensures
        7u32 % c != 0,
{
    assert(2 <= c && c < 3 ==> 7u32 % c != 0) by (bit_vector);
}

/// `7` is a prime.
pub proof fn lemma_prime_7()
    ensures
        is_prime(7),
{
    assert forall|c: int| 2 <= c < 3 implies !#[trigger] divides(c, 7) by {
        lemma_trial_7(c as u32);
    }
    lemma_prime_by_trial(7, 3);
}

/// No number from two up to the square root of `98714381` divides it.
proof fn lemma_trial_98714381(c: u32)
    requires
        2 <= c < 9936,
    ensures
        98714381u32 % c != 0,
{
    assert(2 <= c && c < 9936 ==> 98714381u32 % c != 0) by (bit_vector);
}

/// `98714381` is a prime.
pub proof fn lemma_prime_98714381()
    ensures
        is_prime(98714381),
{
    assert forall|c: int| 2 <= c < 9936 implies !#[trigger] divides(c, 98714381) by {
        lemma_trial_98714381(c as u32);
    }
    lemma_prime_by_trial(98714381, 9936);
}

/// No number from two up to the square root of `166848103` divides it.
proof fn lemma_trial_166848103(c: u32)
    requires
        2 <= c < 12917,
    ensures
        166848103u32 % c != 0,
{
    assert(2 <= c && c < 12917 ==> 166848103u32 % c != 0) by (bit_vector);
}

/// `166848103` is a prime.
pub proof fn lemma_prime_166848103()
    ensures
        is_prime(166848103),
{
    assert forall|c: int| 2 <= c < 12917 implies !#[trigger] divides(c, 166848103) by {
        lemma_trial_166848103(c as u32);
    }
    lemma_prime_by_trial(166848103, 12917);
}

/// `GENERATOR` raised to `2^192`, by 192 squarings.
#[verifier::rlimit(100)]
proof fn lemma_two_power()
    ensures
        fpow(GENERATOR as int, 6277101735386680763835789423207666416102355444464034512896nat, modulus()) == two_power(),
{
    let p = modulus();
    lemma_power_first(3, p);
    lemma_power_square(3, p, 1, 3, 9);
    lemma_power_square(3, p, 2, 9, 81);
    lemma_power_square(3, p, 4, 81, 6561);
    lemma_power_square(3, p, 8, 6561, 43046721);
    lemma_power_square(3, p, 16, 43046721, 1853020188851841);
    lemma_power_square(3, p, 32, 1853020188851841, 3433683820292512484657849089281);
    lemma_power_square(3, p, 64, 3433683820292512484657849089281, 11790184577738583171520872861412518665678211592275841109096961int);
    lemma_power_square(3, p, 128, 11790184577738583171520872861412518665678211592275841109096961int, 1124543596925307519135946231682290810317345022580489153057790721850527828263int);
    lemma_power_square(3, p, 256, 1124543596925307519135946231682290810317345022580489153057790721850527828263int, 583412577007503043446084011174612940463232608044584688766738854709430324402int);
    lemma_power_square(3, p, 512, 583412577007503043446084011174612940463232608044584688766738854709430324402int, 648212115091333885259011822817767021656378920881782949998976784992508139534int);
    lemma_power_square(3, p, 1024, 648212115091333885259011822817767021656378920881782949998976784992508139534int, 1645313594277165544110596933953756762636177978651589273549987926517324262643int);
    lemma_power_square(3, p, 2048, 1645313594277165544110596933953756762636177978651589273549987926517324262643int, 3593045161468444803050407006753861490620468967293303920917745134206055696159int);
    lemma_power_square(3, p, 4096, 3593045161468444803050407006753861490620468967293303920917745134206055696159int, 3387286234820163559948253556946032131620953283614432232247271843215682227316int);
    lemma_power_square(3, p, 8192, 3387286234820163559948253556946032131620953283614432232247271843215682227316int, 1139073884798411459013003946026083795531267551180775907292469061176336776768int);
    lemma_power_square(3, p, 16384, 1139073884798411459013003946026083795531267551180775907292469061176336776768int, 1396940682572030258047042751650222812744821895555355683369552427803884323118int);
    lemma_power_square(3, p, 32768, 1396940682572030258047042751650222812744821895555355683369552427803884323118int, 827890269985797289266799122539238970412285074571161018899362969822628447359int);
    lemma_power_square(3, p, 65536, 827890269985797289266799122539238970412285074571161018899362969822628447359int, 2459452393634538182483834846639619850472717263385358287734146510898661921682int);
    lemma_power_square(3, p, 131072, 2459452393634538182483834846639619850472717263385358287734146510898661921682int, 744060039290148472119115211977168218100771409324097188840214477711413142011int);
    lemma_power_square(3, p, 262144, 744060039290148472119115211977168218100771409324097188840214477711413142011int, 1925792407412547754555370634081039163381389110067259994880716587627008940182int);
    lemma_power_square(3, p, 524288, 1925792407412547754555370634081039163381389110067259994880716587627008940182int, 3537173651623536315666624159321034709272431835646917270716674840585730484856int);
    lemma_power_square(3, p, 1048576, 3537173651623536315666624159321034709272431835646917270716674840585730484856int, 201607133262493957915185796863483649165522522432915266401783436155196135812int);
    lemma_power_square(3, p, 2097152, 201607133262493957915185796863483649165522522432915266401783436155196135812int, 3209512596479222591759600015782939512110386564393059480961544619845487158744int);
    lemma_power_square(3, p, 4194304, 3209512596479222591759600015782939512110386564393059480961544619845487158744int, 2693029631393922279263137318236027275190448562530349799537419249255676404055int);
    lemma_power_square(3, p, 8388608, 2693029631393922279263137318236027275190448562530349799537419249255676404055int, 1509892371810992646698611679663068286038795959625452887545574623696660291844int);
    lemma_power_square(3, p, 16777216, 1509892371810992646698611679663068286038795959625452887545574623696660291844int, 3568768547554177051794798388717651000849204991378113452444240000269257069329int);
    lemma_power_square(3, p, 33554432, 3568768547554177051794798388717651000849204991378113452444240000269257069329int, 1823602279275602704310256158595409679759480538839220980273064234971038699086int);
    lemma_power_square(3, p, 67108864, 1823602279275602704310256158595409679759480538839220980273064234971038699086int, 2747892830526604879903691808495037926268409869515051418454456913629320125375int);
    lemma_power_square(3, p, 134217728, 2747892830526604879903691808495037926268409869515051418454456913629320125375int, 319413824795353134107523504536916809854507421922854619507823294111656749877int);
    lemma_power_square(3, p, 268435456, 319413824795353134107523504536916809854507421922854619507823294111656749877int, 1668595394236160476851029031533376038365588757064605425875015443480192058864int);
    lemma_power_square(3, p, 536870912, 1668595394236160476851029031533376038365588757064605425875015443480192058864int, 2611761693084520479536087083479266548150884593510189619259727534773406558548int);
    lemma_power_square(3, p, 1073741824, 2611761693084520479536087083479266548150884593510189619259727534773406558548int, 2167375975381965342806393220809050810823493406108214500813200579326927923193int);
    lemma_power_square(3, p, 2147483648, 2167375975381965342806393220809050810823493406108214500813200579326927923193int, 2886002170161978643952306148416252473655112714187949422111037768205221848909int);
    lemma_power_square(3, p, 4294967296, 2886002170161978643952306148416252473655112714187949422111037768205221848909int, 1313274776091727320922534688638777105817640030869945784534147549555629278952int);
    lemma_power_square(3, p, 8589934592, 1313274776091727320922534688638777105817640030869945784534147549555629278952int, 2245281518551265352765472115578043861934522286339023762215115494483481907353int);
    lemma_power_square(3, p, 17179869184, 2245281518551265352765472115578043861934522286339023762215115494483481907353int, 1569875954143203154163427250504603565609653074554818505648664754710090335501int);
    lemma_power_square(3, p, 34359738368, 1569875954143203154163427250504603565609653074554818505648664754710090335501int, 2429706190075293907088750883082843895007423015235384298101183830433136794070int);
    lemma_power_square(3, p, 68719476736, 2429706190075293907088750883082843895007423015235384298101183830433136794070int, 3472792471287909590172201648206224161256512509824097971615527907002221103731int);
    lemma_power_square(3, p, 137438953472, 3472792471287909590172201648206224161256512509824097971615527907002221103731int, 956999514996091098724471677037338740940184085071133020042303413588317672823int);
    lemma_power_square(3, p, 274877906944, 956999514996091098724471677037338740940184085071133020042303413588317672823int, 1146368340459479873130366869967066445150589199498867979455973548879657195494int);
    lemma_power_square(3, p, 549755813888, 1146368340459479873130366869967066445150589199498867979455973548879657195494int, 2334805146953837139201516561685782937088482857856574499980130286034417768484int);
    lemma_power_square(3, p, 1099511627776, 2334805146953837139201516561685782937088482857856574499980130286034417768484int, 2686703077685287602281501764841403130494758479030607774348414977490177929639int);
    lemma_power_square(3, p, 2199023255552, 2686703077685287602281501764841403130494758479030607774348414977490177929639int, 427472349553249834671697394545758869542084837542977466616643167691942496810int);
    lemma_power_square(3, p, 4398046511104, 427472349553249834671697394545758869542084837542977466616643167691942496810int, 2086006670851146793704615577696536920678711055584668872130080724181815193284int);
    lemma_power_square(3, p, 8796093022208, 2086006670851146793704615577696536920678711055584668872130080724181815193284int, 3290105164998930461315816235563145387968364808097578127217854292425441920719int);
    lemma_power_square(3, p, 17592186044416, 3290105164998930461315816235563145387968364808097578127217854292425441920719int, 2722989004671135287476952592509392516306884885554126154544709114747387820607int);
    lemma_power_square(3, p, 35184372088832, 2722989004671135287476952592509392516306884885554126154544709114747387820607int, 2464053869466896222786342658241688207811131999121128568989137433565109348160int);
    lemma_power_square(3, p, 70368744177664, 2464053869466896222786342658241688207811131999121128568989137433565109348160int, 2017329450445684039423443084056143273632384594959533621159607155439052236033int);
    lemma_power_square(3, p, 140737488355328, 2017329450445684039423443084056143273632384594959533621159607155439052236033int, 1530720078595167213635783142522265736842341284697751518284590516043265007377int);
    lemma_power_square(3, p, 281474976710656, 1530720078595167213635783142522265736842341284697751518284590516043265007377int, 3090064038033391259471530843280935954260467008634987039335256545161997117288int);
    lemma_power_square(3, p, 562949953421312, 3090064038033391259471530843280935954260467008634987039335256545161997117288int, 2498071738681922166907728494889454618493559806097289237187453945295716971051int);
    lemma_power_square(3, p, 1125899906842624, 2498071738681922166907728494889454618493559806097289237187453945295716971051int, 1360233295033051535785106638413603744678195274026486547870751064701648948194int);
    lemma_power_square(3, p, 2251799813685248, 1360233295033051535785106638413603744678195274026486547870751064701648948194int, 1655330069672712495676862622089127662800137738240779472885588859810447479455int);
    lemma_power_square(3, p, 4503599627370496, 1655330069672712495676862622089127662800137738240779472885588859810447479455int, 2878375937417693147453319788847269590265002585209713630265977524146231813764int);
    lemma_power_square(3, p, 9007199254740992, 2878375937417693147453319788847269590265002585209713630265977524146231813764int, 1139661834554995857375682110630728020115316336744735318238274414836060401598int);
    lemma_power_square(3, p, 18014398509481984, 1139661834554995857375682110630728020115316336744735318238274414836060401598int, 1080888913169818436698861231261081131843049047342628034567703671310845144636int);
    lemma_power_square(3, p, 36028797018963968, 1080888913169818436698861231261081131843049047342628034567703671310845144636int, 2290895634306456191345790519657921840771925560915198576365812101183776949205int);
    lemma_power_square(3, p, 72057594037927936, 2290895634306456191345790519657921840771925560915198576365812101183776949205int, 736182452550811244992698681131460943927056129502986476604317674985659126140int);
    lemma_power_square(3, p, 144115188075855872, 736182452550811244992698681131460943927056129502986476604317674985659126140int, 2524848815095690195098904210862915173871464222194278194675642585844477632999int);
    lemma_power_square(3, p, 288230376151711744, 2524848815095690195098904210862915173871464222194278194675642585844477632999int, 177148073158423360289494163944333766314754626505641442958265382256348589351int);
    lemma_power_square(3, p, 576460752303423488, 177148073158423360289494163944333766314754626505641442958265382256348589351int, 1964169802781337330304310337302331203994413798161896598498043185427604286335int);
    lemma_power_square(3, p, 1152921504606846976, 1964169802781337330304310337302331203994413798161896598498043185427604286335int, 19271639197955326213343695230633349474081555078573798905564294391721417840int);
    lemma_power_square(3, p, 2305843009213693952, 19271639197955326213343695230633349474081555078573798905564294391721417840int, 2147669813584612568616303402435939146657719568483434477764402776713804873475int);
    lemma_power_square(3, p, 4611686018427387904, 2147669813584612568616303402435939146657719568483434477764402776713804873475int, 2502770204331837853006151170390659887326138714271193995323638406644590384146int);
    lemma_power_square(3, p, 9223372036854775808, 2502770204331837853006151170390659887326138714271193995323638406644590384146int, 46894943838200533943361515482620062299795665660762883404812592191208591009int);
    lemma_power_square(3, p, 18446744073709551616, 46894943838200533943361515482620062299795665660762883404812592191208591009int, 1266061824527974333669729964336696198929439663931383397604231228438383355164int);
    lemma_power_square(3, p, 36893488147419103232, 1266061824527974333669729964336696198929439663931383397604231228438383355164int, 2256084883174878869684140749299387009500249804169883046741262137905100973104int);
    lemma_power_square(3, p, 73786976294838206464, 2256084883174878869684140749299387009500249804169883046741262137905100973104int, 1656869763390091959112808232699025934278860807860903910347251438645170776693int);
    lemma_power_square(3, p, 147573952589676412928, 1656869763390091959112808232699025934278860807860903910347251438645170776693int, 1036737970349209986660877952545668711810675354955067406543088870592852837213int);
    lemma_power_square(3, p, 295147905179352825856, 1036737970349209986660877952545668711810675354955067406543088870592852837213int, 3196268903564630465185242734783925880854957329668399333340742826001216851180int);
    lemma_power_square(3, p, 590295810358705651712, 3196268903564630465185242734783925880854957329668399333340742826001216851180int, 77955689552199196329974542341134356257780217982325285909758101851829205348int);
    lemma_power_square(3, p, 1180591620717411303424, 77955689552199196329974542341134356257780217982325285909758101851829205348int, 373352773499483708166900805749363919182619953591076952755839800979460653055int);
    lemma_power_square(3, p, 2361183241434822606848, 373352773499483708166900805749363919182619953591076952755839800979460653055int, 3096027545129390331085405023712378023103898685890310238751775875741383239084int);
    lemma_power_square(3, p, 4722366482869645213696, 3096027545129390331085405023712378023103898685890310238751775875741383239084int, 18807612491990274525307920216159981061897375161001492462795623578694311997int);
    lemma_power_square(3, p, 9444732965739290427392, 18807612491990274525307920216159981061897375161001492462795623578694311997int, 3558066671260734416291787917140401942591031477547027339645487971280825822694int);
    lemma_power_square(3, p, 18889465931478580854784, 3558066671260734416291787917140401942591031477547027339645487971280825822694int, 2655067191353606626077121168892370983243816521581697338711119755022302218590int);
    lemma_power_square(3, p, 37778931862957161709568, 2655067191353606626077121168892370983243816521581697338711119755022302218590int, 923625513687124953672252870497929635683442581555616816638872393033471708208int);
    lemma_power_square(3, p, 75557863725914323419136, 923625513687124953672252870497929635683442581555616816638872393033471708208int, 246236194941043586006522429921510823730773258189455210011841762165775915839int);
    lemma_power_square(3, p, 151115727451828646838272, 246236194941043586006522429921510823730773258189455210011841762165775915839int, 865314463388967094318071030274814307902843641915974826191799327811017707576int);
    lemma_power_square(3, p, 302231454903657293676544, 865314463388967094318071030274814307902843641915974826191799327811017707576int, 1823510095489218941936224537063398922610298793363799899528762160557745706224int);
    lemma_power_square(3, p, 604462909807314587353088, 1823510095489218941936224537063398922610298793363799899528762160557745706224int, 3483447743747621387691530953118191941407807652659184454403211810322874440273int);
    lemma_power_square(3, p, 1208925819614629174706176, 3483447743747621387691530953118191941407807652659184454403211810322874440273int, 2630604727634265908927620407253155804954281782043572397647135558122091935291int);
    lemma_power_square(3, p, 2417851639229258349412352, 2630604727634265908927620407253155804954281782043572397647135558122091935291int, 883581779895385748780215984000007513210094582953792450777787625277770321817int);
    lemma_power_square(3, p, 4835703278458516698824704, 883581779895385748780215984000007513210094582953792450777787625277770321817int, 731834821555952889020456118702204628658731656214514851605270329630020257645int);
    lemma_power_square(3, p, 9671406556917033397649408, 731834821555952889020456118702204628658731656214514851605270329630020257645int, 1368465174738064456602148961895737337492204049922506066915391626923742057829int);
    lemma_power_square(3, p, 19342813113834066795298816, 1368465174738064456602148961895737337492204049922506066915391626923742057829int, 26536505129151487399085601986786471364482301333226192437873722343346568793int);
    lemma_power_square(3, p, 38685626227668133590597632, 26536505129151487399085601986786471364482301333226192437873722343346568793int, 2339160255373325813371417864398151042968041894008002170835959298407388196014int);
    lemma_power_square(3, p, 77371252455336267181195264, 2339160255373325813371417864398151042968041894008002170835959298407388196014int, 928739389576828714749901139689284980865774477058932694041842110692697753676int);
    lemma_power_square(3, p, 154742504910672534362390528, 928739389576828714749901139689284980865774477058932694041842110692697753676int, 2239643274655335129911905054484258983337433053400823390207389508384248064138int);
    lemma_power_square(3, p, 309485009821345068724781056, 2239643274655335129911905054484258983337433053400823390207389508384248064138int, 3139236124561576929002177454526999739596341278588550623621697166437388049932int);
    lemma_power_square(3, p, 618970019642690137449562112, 3139236124561576929002177454526999739596341278588550623621697166437388049932int, 2062817554742051430715196617358942531587492755120920168873095724169051141140int);
    lemma_power_square(3, p, 1237940039285380274899124224, 2062817554742051430715196617358942531587492755120920168873095724169051141140int, 2520940163608789150916916300159600153651501751747091113635288425022731205919int);
    lemma_power_square(3, p, 2475880078570760549798248448, 2520940163608789150916916300159600153651501751747091113635288425022731205919int, 3487652019880320963174775634258036627194209148198573776918643012899551069507int);
    lemma_power_square(3, p, 4951760157141521099596496896, 3487652019880320963174775634258036627194209148198573776918643012899551069507int, 2028874860487326132115843672028351415325304798918728710253829881805573770303int);
    lemma_power_square(3, p, 9903520314283042199192993792, 2028874860487326132115843672028351415325304798918728710253829881805573770303int, 1926931035036890924316185862166578901240495297475161634738774476017362814054int);
    lemma_power_square(3, p, 19807040628566084398385987584, 1926931035036890924316185862166578901240495297475161634738774476017362814054int, 3555429536528976820409585228379319251284326571387585338176461706513174369061int);
    lemma_power_square(3, p, 39614081257132168796771975168, 3555429536528976820409585228379319251284326571387585338176461706513174369061int, 3042000335747133150762792547773245672198875435727012728747286395396560721804int);
    lemma_power_square(3, p, 79228162514264337593543950336, 3042000335747133150762792547773245672198875435727012728747286395396560721804int, 3352348328664249080973202457742331407528971860876069743969842894923126916023int);
    lemma_power_square(3, p, 158456325028528675187087900672, 3352348328664249080973202457742331407528971860876069743969842894923126916023int, 2831975640281996504457983890559868946812067154735429253207793460255925757403int);
    lemma_power_square(3, p, 316912650057057350374175801344, 2831975640281996504457983890559868946812067154735429253207793460255925757403int, 3560862778094124644825407276997920374396405875831776314999287930110516085350int);
    lemma_power_square(3, p, 633825300114114700748351602688, 3560862778094124644825407276997920374396405875831776314999287930110516085350int, 1306779276399751368595568880328989919932525120946015455312117950806266316478int);
    lemma_power_square(3, p, 1267650600228229401496703205376, 1306779276399751368595568880328989919932525120946015455312117950806266316478int, 2764007931709480038405248506814097689851167809672607475346454044588988296589int);
    lemma_power_square(3, p, 2535301200456458802993406410752, 2764007931709480038405248506814097689851167809672607475346454044588988296589int, 1330429091178844884899373471405722449196790211297787657386084020781774166610int);
    lemma_power_square(3, p, 5070602400912917605986812821504, 1330429091178844884899373471405722449196790211297787657386084020781774166610int, 333105746218008690539346456044380161580269034125926672522573928079484507030int);
    lemma_power_square(3, p, 10141204801825835211973625643008, 333105746218008690539346456044380161580269034125926672522573928079484507030int, 2530553881321210339361507808446857456423416482183753430685576904229156945951int);
    lemma_power_square(3, p, 20282409603651670423947251286016, 2530553881321210339361507808446857456423416482183753430685576904229156945951int, 2411097633883452759884104418114452195374191953320437055133323795344304503241int);
    lemma_power_square(3, p, 40564819207303340847894502572032, 2411097633883452759884104418114452195374191953320437055133323795344304503241int, 2624553526877970513491674843918537997280545495817503731701557014862355959708int);
    lemma_power_square(3, p, 81129638414606681695789005144064, 2624553526877970513491674843918537997280545495817503731701557014862355959708int, 155545610106388516764424337277993653137392121973318288289484139860746791546int);
    lemma_power_square(3, p, 162259276829213363391578010288128, 155545610106388516764424337277993653137392121973318288289484139860746791546int, 1574482091067978435511599841545883969205547650234049636378257421561683976365int);
    lemma_power_square(3, p, 324518553658426726783156020576256, 1574482091067978435511599841545883969205547650234049636378257421561683976365int, 1424593335045152907728616152774473987837875678631625255336692393514030249034int);
    lemma_power_square(3, p, 649037107316853453566312041152512, 1424593335045152907728616152774473987837875678631625255336692393514030249034int, 233687161929878421080923231801915740582638698260492258656704079614065464202int);
    lemma_power_square(3, p, 1298074214633706907132624082305024, 233687161929878421080923231801915740582638698260492258656704079614065464202int, 3005586358966487929524114080438330545247707329859432813170090431643414556526int);
    lemma_power_square(3, p, 2596148429267413814265248164610048, 3005586358966487929524114080438330545247707329859432813170090431643414556526int, 892048996069684452404403837937500466808517729363019189056160251223251372174int);
    lemma_power_square(3, p, 5192296858534827628530496329220096, 892048996069684452404403837937500466808517729363019189056160251223251372174int, 2312008109248380168977568746503066381957716138068806954915981432218681695268int);
    lemma_power_square(3, p, 10384593717069655257060992658440192, 2312008109248380168977568746503066381957716138068806954915981432218681695268int, 2366416406672869229657541352925029124612272239493547586059198129396769456144int);
    lemma_power_square(3, p, 20769187434139310514121985316880384, 2366416406672869229657541352925029124612272239493547586059198129396769456144int, 3120090529269386802477453303913748942538750770516943883371470749216331720137int);
    lemma_power_square(3, p, 41538374868278621028243970633760768, 3120090529269386802477453303913748942538750770516943883371470749216331720137int, 747838957073339008687206096735616645176639850769693466955797308206671922653int);
    lemma_power_square(3, p, 83076749736557242056487941267521536, 747838957073339008687206096735616645176639850769693466955797308206671922653int, 8189961416799100596495930414463822404673560938817816984691746606185937000int);
    lemma_power_square(3, p, 166153499473114484112975882535043072, 8189961416799100596495930414463822404673560938817816984691746606185937000int, 2216748955477792208298309047704733886955306805993001721670631935673537038311int);
    lemma_power_square(3, p, 332306998946228968225951765070086144, 2216748955477792208298309047704733886955306805993001721670631935673537038311int, 521653672555909919714787751291862337800315350355335762831478092458824689770int);
    lemma_power_square(3, p, 664613997892457936451903530140172288, 521653672555909919714787751291862337800315350355335762831478092458824689770int, 1771122191943617361190496150630375872733794891910206434328556976048969977713int);
    lemma_power_square(3, p, 1329227995784915872903807060280344576, 1771122191943617361190496150630375872733794891910206434328556976048969977713int, 815591603472792748248129867202430797664860743003203460076834425901505631498int);
    lemma_power_square(3, p, 2658455991569831745807614120560689152, 815591603472792748248129867202430797664860743003203460076834425901505631498int, 1814842356880335460149479977328603072626653394045801439234085156914608296364int);
    lemma_power_square(3, p, 5316911983139663491615228241121378304, 1814842356880335460149479977328603072626653394045801439234085156914608296364int, 1880517219076383563759660206934719880171860679813935463295448590191850116858int);
    lemma_power_square(3, p, 10633823966279326983230456482242756608, 1880517219076383563759660206934719880171860679813935463295448590191850116858int, 1139586075278776225003281706157557740987438968225879651410838659419629387414int);
    lemma_power_square(3, p, 21267647932558653966460912964485513216, 1139586075278776225003281706157557740987438968225879651410838659419629387414int, 432668414087602857808401271126804036412867727046654669074082054564431458468int);
    lemma_power_square(3, p, 42535295865117307932921825928971026432, 432668414087602857808401271126804036412867727046654669074082054564431458468int, 843883125466300281820430502836964777034778339980492452932272783790115827161int);
    lemma_power_square(3, p, 85070591730234615865843651857942052864, 843883125466300281820430502836964777034778339980492452932272783790115827161int, 3605580552956277500908648432936812440309293048425671543922272451728064077920int);
    lemma_power_square(3, p, 170141183460469231731687303715884105728nat, 3605580552956277500908648432936812440309293048425671543922272451728064077920int, 398103906061580047354612438187865011956669297130032666612560932419331362676int);
    lemma_power_square(3, p, 340282366920938463463374607431768211456nat, 398103906061580047354612438187865011956669297130032666612560932419331362676int, 1498226375304108955726951165956001093685320774247586149697084080812693865252int);
    lemma_power_square(3, p, 680564733841876926926749214863536422912nat, 1498226375304108955726951165956001093685320774247586149697084080812693865252int, 3344292930109115571815380588141314802934375676355841219732175655290862818473int);
    lemma_power_square(3, p, 1361129467683753853853498429727072845824nat, 3344292930109115571815380588141314802934375676355841219732175655290862818473int, 1718182220289842037902138864303818211502874307051395653448725786514284032573int);
    lemma_power_square(3, p, 2722258935367507707706996859454145691648nat, 1718182220289842037902138864303818211502874307051395653448725786514284032573int, 807336444058269900855425419315520016778272512513656159214413526572274661980int);
    lemma_power_square(3, p, 5444517870735015415413993718908291383296nat, 807336444058269900855425419315520016778272512513656159214413526572274661980int, 666339833752588177219898142803026190197783571514915311564265320766255392592int);
    lemma_power_square(3, p, 10889035741470030830827987437816582766592nat, 666339833752588177219898142803026190197783571514915311564265320766255392592int, 3322574672319398867920235826560194002205272571817071811262092344072048314985int);
    lemma_power_square(3, p, 21778071482940061661655974875633165533184nat, 3322574672319398867920235826560194002205272571817071811262092344072048314985int, 2993124573211712250265924600301125541703274791003022553907098874263541091433int);
    lemma_power_square(3, p, 43556142965880123323311949751266331066368nat, 2993124573211712250265924600301125541703274791003022553907098874263541091433int, 109001040194830369117477900905010703906739606222906248567874173308841132960int);
    lemma_power_square(3, p, 87112285931760246646623899502532662132736nat, 109001040194830369117477900905010703906739606222906248567874173308841132960int, 310614907263052251823357235359510370712351761103552114127430296039099130279int);
    lemma_power_square(3, p, 174224571863520493293247799005065324265472nat, 310614907263052251823357235359510370712351761103552114127430296039099130279int, 1139754937898841568206874847941863766732606945632349582513936807322825241872int);
    lemma_power_square(3, p, 348449143727040986586495598010130648530944nat, 1139754937898841568206874847941863766732606945632349582513936807322825241872int, 674818922317393807438303370613556124216674252111418856645773771803850559769int);
    lemma_power_square(3, p, 696898287454081973172991196020261297061888nat, 674818922317393807438303370613556124216674252111418856645773771803850559769int, 1294000203232738747233468555589301929025496677767658838293955809506071408516int);
    lemma_power_square(3, p, 1393796574908163946345982392040522594123776nat, 1294000203232738747233468555589301929025496677767658838293955809506071408516int, 1995292772271128277965197408760964321565101724214383417395350735073878141165int);
    lemma_power_square(3, p, 2787593149816327892691964784081045188247552nat, 1995292772271128277965197408760964321565101724214383417395350735073878141165int, 685163693725403402892389989017541542355859826825791375092089601560081552751int);
    lemma_power_square(3, p, 5575186299632655785383929568162090376495104nat, 685163693725403402892389989017541542355859826825791375092089601560081552751int, 1033026009642522892924247255834522953720513520392420318216015379862597670143int);
    lemma_power_square(3, p, 11150372599265311570767859136324180752990208nat, 1033026009642522892924247255834522953720513520392420318216015379862597670143int, 2602822994402561514505267622349414333424581459441035258544137202787000279316int);
    lemma_power_square(3, p, 22300745198530623141535718272648361505980416nat, 2602822994402561514505267622349414333424581459441035258544137202787000279316int, 1559610952437297444600336136891941929682120981248590348208322750452635662330int);
    lemma_power_square(3, p, 44601490397061246283071436545296723011960832nat, 1559610952437297444600336136891941929682120981248590348208322750452635662330int, 2143541283885663706953796981206167325165119387114926145606332086842924611353int);
    lemma_power_square(3, p, 89202980794122492566142873090593446023921664nat, 2143541283885663706953796981206167325165119387114926145606332086842924611353int, 2848328573874666978023064806447086207866153561165609225938027498777463046567int);
    lemma_power_square(3, p, 178405961588244985132285746181186892047843328nat, 2848328573874666978023064806447086207866153561165609225938027498777463046567int, 358858775449535581599040252844229096768296951302904349765340170940353150249int);
    lemma_power_square(3, p, 356811923176489970264571492362373784095686656nat, 358858775449535581599040252844229096768296951302904349765340170940353150249int, 3193391651699740721459264830108729767552363139608989121427609808621570436857int);
    lemma_power_square(3, p, 713623846352979940529142984724747568191373312nat, 3193391651699740721459264830108729767552363139608989121427609808621570436857int, 3431273961877320479831846545326553154837527158126072267500599512330086934657int);
    lemma_power_square(3, p, 1427247692705959881058285969449495136382746624nat, 3431273961877320479831846545326553154837527158126072267500599512330086934657int, 2389676782247555393296259885120198008945642230896352021409090656580486153870int);
    lemma_power_square(3, p, 2854495385411919762116571938898990272765493248nat, 2389676782247555393296259885120198008945642230896352021409090656580486153870int, 2980795381928427191048415456666885985520033216169737836475345900773261426090int);
    lemma_power_square(3, p, 5708990770823839524233143877797980545530986496nat, 2980795381928427191048415456666885985520033216169737836475345900773261426090int, 3227252910970819765821278340003215263306044507565385961823226724212309106194int);
    lemma_power_square(3, p, 11417981541647679048466287755595961091061972992nat, 3227252910970819765821278340003215263306044507565385961823226724212309106194int, 428166445807614346356205489448627970785693988996751132691612124835521243365int);
    lemma_power_square(3, p, 22835963083295358096932575511191922182123945984nat, 428166445807614346356205489448627970785693988996751132691612124835521243365int, 3064143675176980874945048877505944551716031887472721103557289470816322150710int);
    lemma_power_square(3, p, 45671926166590716193865151022383844364247891968nat, 3064143675176980874945048877505944551716031887472721103557289470816322150710int, 1499783910329157519073471308237660954688308733504639121920337276778565174480int);
    lemma_power_square(3, p, 91343852333181432387730302044767688728495783936nat, 1499783910329157519073471308237660954688308733504639121920337276778565174480int, 1007233537506454144166828646156173510087008118495183382526531140107426846412int);
    lemma_power_square(3, p, 182687704666362864775460604089535377456991567872nat, 1007233537506454144166828646156173510087008118495183382526531140107426846412int, 1884351415358823938789721698037897367207478081850406964794914148623704244079int);
    lemma_power_square(3, p, 365375409332725729550921208179070754913983135744nat, 1884351415358823938789721698037897367207478081850406964794914148623704244079int, 1565673233797678650342715266894698636954838337711088943932267699491479992457int);
    lemma_power_square(3, p, 730750818665451459101842416358141509827966271488nat, 1565673233797678650342715266894698636954838337711088943932267699491479992457int, 90957230864946038194867222252414656156245376419693388054335164474039594095int);
    lemma_power_square(3, p, 1461501637330902918203684832716283019655932542976nat, 90957230864946038194867222252414656156245376419693388054335164474039594095int, 1777743844089378836749337950635111835958956841102646486232132361895589102021int);
    lemma_power_square(3, p, 2923003274661805836407369665432566039311865085952nat, 1777743844089378836749337950635111835958956841102646486232132361895589102021int, 1995388897765750617965980434803709274645968121026106570249329016498031845842int);
    lemma_power_square(3, p, 5846006549323611672814739330865132078623730171904nat, 1995388897765750617965980434803709274645968121026106570249329016498031845842int, 1261125086342035806546358385861745127821825704827505857587821196630061124385int);
    lemma_power_square(3, p, 11692013098647223345629478661730264157247460343808nat, 1261125086342035806546358385861745127821825704827505857587821196630061124385int, 2246342110125770897784667971736848031855317306009810049546869813510301463500int);
    lemma_power_square(3, p, 23384026197294446691258957323460528314494920687616nat, 2246342110125770897784667971736848031855317306009810049546869813510301463500int, 2483369158025949953094354361583496251955627938831247092211120538197617824651int);
    lemma_power_square(3, p, 46768052394588893382517914646921056628989841375232nat, 2483369158025949953094354361583496251955627938831247092211120538197617824651int, 1805248941107461562278646117465176106236460161360706769769731419010945548111int);
    lemma_power_square(3, p, 93536104789177786765035829293842113257979682750464nat, 1805248941107461562278646117465176106236460161360706769769731419010945548111int, 310093367180143253817321836649542157992607012990650440872551383195381528341int);
    lemma_power_square(3, p, 187072209578355573530071658587684226515959365500928nat, 310093367180143253817321836649542157992607012990650440872551383195381528341int, 1785213530716314846953822066242366004166992157725662869564632424195345088797int);
    lemma_power_square(3, p, 374144419156711147060143317175368453031918731001856nat, 1785213530716314846953822066242366004166992157725662869564632424195345088797int, 2321818727595025041037915543923850170456577862331744948180237708149069342955int);
    lemma_power_square(3, p, 748288838313422294120286634350736906063837462003712nat, 2321818727595025041037915543923850170456577862331744948180237708149069342955int, 2765569241682888230222908951719240640281917213995011653594711009507832458443int);
    lemma_power_square(3, p, 1496577676626844588240573268701473812127674924007424nat, 2765569241682888230222908951719240640281917213995011653594711009507832458443int, 2060359863813455162411417469896302895308504593089760022128327619623803735103int);
    lemma_power_square(3, p, 2993155353253689176481146537402947624255349848014848nat, 2060359863813455162411417469896302895308504593089760022128327619623803735103int, 2490399927433385148821517914180549565126632207565269435803747343384621672223int);
    lemma_power_square(3, p, 5986310706507378352962293074805895248510699696029696nat, 2490399927433385148821517914180549565126632207565269435803747343384621672223int, 2771083332303440543600370591608247422231013565754280056360977896383037185141int);
    lemma_power_square(3, p, 11972621413014756705924586149611790497021399392059392nat, 2771083332303440543600370591608247422231013565754280056360977896383037185141int, 1268721957223235561512476344793535499657033257710916270905953708102966773220int);
    lemma_power_square(3, p, 23945242826029513411849172299223580994042798784118784nat, 1268721957223235561512476344793535499657033257710916270905953708102966773220int, 1967555242793870908107319927497268369717550605513765619954592595383304709721int);
    lemma_power_square(3, p, 47890485652059026823698344598447161988085597568237568nat, 1967555242793870908107319927497268369717550605513765619954592595383304709721int, 2152180014202512816656235878371251363470404168853935707980820087731513112132int);
    lemma_power_square(3, p, 95780971304118053647396689196894323976171195136475136nat, 2152180014202512816656235878371251363470404168853935707980820087731513112132int, 2453406012015446799776299381594845984448849465744560518497158084015382670344int);
    lemma_power_square(3, p, 191561942608236107294793378393788647952342390272950272nat, 2453406012015446799776299381594845984448849465744560518497158084015382670344int, 1940480055549963478809431856393602267219434759375085145818994530582875785409int);
    lemma_power_square(3, p, 383123885216472214589586756787577295904684780545900544nat, 1940480055549963478809431856393602267219434759375085145818994530582875785409int, 1793334591073108301104677397000000716229685626130318915738703180328631552886int);
    lemma_power_square(3, p, 766247770432944429179173513575154591809369561091801088nat, 1793334591073108301104677397000000716229685626130318915738703180328631552886int, 2952871468761496713624500899268490083637965388622056854861421432821684733837int);
    lemma_power_square(3, p, 1532495540865888858358347027150309183618739122183602176nat, 2952871468761496713624500899268490083637965388622056854861421432821684733837int, 1960112189611851889490460805202104824311560058256563864215080542452301891832int);
    lemma_power_square(3, p, 3064991081731777716716694054300618367237478244367204352nat, 1960112189611851889490460805202104824311560058256563864215080542452301891832int, 1235930086209161128930834349176322840773939921919541167584728580154335683512int);
    lemma_power_square(3, p, 6129982163463555433433388108601236734474956488734408704nat, 1235930086209161128930834349176322840773939921919541167584728580154335683512int, 2652625643175021755608613495990625031415455323144928971971141347997745755483int);
    lemma_power_square(3, p, 12259964326927110866866776217202473468949912977468817408nat, 2652625643175021755608613495990625031415455323144928971971141347997745755483int, 1386898887652522838726736072899671726520400759930527691456157109492817215000int);
    lemma_power_square(3, p, 24519928653854221733733552434404946937899825954937634816nat, 1386898887652522838726736072899671726520400759930527691456157109492817215000int, 1002862518290456505618939613994182541223560697008470872986373340960918990661int);
    lemma_power_square(3, p, 49039857307708443467467104868809893875799651909875269632nat, 1002862518290456505618939613994182541223560697008470872986373340960918990661int, 581533981097537378972943770166461915347074929315696274199335692898882898768int);
    lemma_power_square(3, p, 98079714615416886934934209737619787751599303819750539264nat, 581533981097537378972943770166461915347074929315696274199335692898882898768int, 2214031352101389934673397005057110213405007638887126638084948537053266392351int);
    lemma_power_square(3, p, 196159429230833773869868419475239575503198607639501078528nat, 2214031352101389934673397005057110213405007638887126638084948537053266392351int, 669284117964061303575401220647732431891882151727704593925967045929659862895int);
    lemma_power_square(3, p, 392318858461667547739736838950479151006397215279002157056nat, 669284117964061303575401220647732431891882151727704593925967045929659862895int, 2146829039967363421837723267535474159209143909688526384711381962027014787384int);
    lemma_power_square(3, p, 784637716923335095479473677900958302012794430558004314112nat, 2146829039967363421837723267535474159209143909688526384711381962027014787384int, 3176635424802325364483378491184373635737558326712181863061161281747944200219int);
    lemma_power_square(3, p, 1569275433846670190958947355801916604025588861116008628224nat, 3176635424802325364483378491184373635737558326712181863061161281747944200219int, 2126934803678978165995618724579202172554262802416350629145079012640195174728int);
    lemma_power_square(3, p, 3138550867693340381917894711603833208051177722232017256448nat, 2126934803678978165995618724579202172554262802416350629145079012640195174728int, 435370109474914714129521158467059741824376378869643726680529596415811661392int);
}

#[verifier::rlimit(60)]
proof fn lemma_generator_to_root_part_1()
    requires
        fpow(GENERATOR as int, 1, modulus()) == 3,
    ensures
        fpow(GENERATOR as int, 65536, modulus()) == 827890269985797289266799122539238970412285074571161018899362969822628447359int,
{
    let p = modulus();
    lemma_power_square(3, p, 1, 3, 9);
    lemma_power_square(3, p, 2, 9, 81);
    lemma_power_square(3, p, 4, 81, 6561);
    lemma_power_square(3, p, 8, 6561, 43046721);
    lemma_power_square(3, p, 16, 43046721, 1853020188851841);
    lemma_power_square(3, p, 32, 1853020188851841, 3433683820292512484657849089281);
    lemma_power_square(3, p, 64, 3433683820292512484657849089281, 11790184577738583171520872861412518665678211592275841109096961int);
    lemma_power_square(3, p, 128, 11790184577738583171520872861412518665678211592275841109096961int, 1124543596925307519135946231682290810317345022580489153057790721850527828263int);
    lemma_power_square(3, p, 256, 1124543596925307519135946231682290810317345022580489153057790721850527828263int, 583412577007503043446084011174612940463232608044584688766738854709430324402int);
    lemma_power_square(3, p, 512, 583412577007503043446084011174612940463232608044584688766738854709430324402int, 648212115091333885259011822817767021656378920881782949998976784992508139534int);
    lemma_power_square(3, p, 1024, 648212115091333885259011822817767021656378920881782949998976784992508139534int, 1645313594277165544110596933953756762636177978651589273549987926517324262643int);
    lemma_power_square(3, p, 2048, 1645313594277165544110596933953756762636177978651589273549987926517324262643int, 3593045161468444803050407006753861490620468967293303920917745134206055696159int);
    lemma_power_square(3, p, 4096, 3593045161468444803050407006753861490620468967293303920917745134206055696159int, 3387286234820163559948253556946032131620953283614432232247271843215682227316int);
    lemma_power_square(3, p, 8192, 3387286234820163559948253556946032131620953283614432232247271843215682227316int, 1139073884798411459013003946026083795531267551180775907292469061176336776768int);
    lemma_power_square(3, p, 16384, 1139073884798411459013003946026083795531267551180775907292469061176336776768int, 1396940682572030258047042751650222812744821895555355683369552427803884323118int);
    lemma_power_square(3, p, 32768, 1396940682572030258047042751650222812744821895555355683369552427803884323118int, 827890269985797289266799122539238970412285074571161018899362969822628447359int);
}

#[verifier::rlimit(60)]
proof fn lemma_generator_to_root_part_2()
    requires
        fpow(GENERATOR as int, 65536, modulus()) == 827890269985797289266799122539238970412285074571161018899362969822628447359int,
    ensures
        fpow(GENERATOR as int, 4294967296, modulus()) == 2886002170161978643952306148416252473655112714187949422111037768205221848909int,
{
    let p = modulus();
    lemma_power_square(3, p, 65536, 827890269985797289266799122539238970412285074571161018899362969822628447359int, 2459452393634538182483834846639619850472717263385358287734146510898661921682int);
    lemma_power_square(3, p, 131072, 2459452393634538182483834846639619850472717263385358287734146510898661921682int, 744060039290148472119115211977168218100771409324097188840214477711413142011int);
    lemma_power_square(3, p, 262144, 744060039290148472119115211977168218100771409324097188840214477711413142011int, 1925792407412547754555370634081039163381389110067259994880716587627008940182int);
    lemma_power_square(3, p, 524288, 1925792407412547754555370634081039163381389110067259994880716587627008940182int, 3537173651623536315666624159321034709272431835646917270716674840585730484856int);
    lemma_power_square(3, p, 1048576, 3537173651623536315666624159321034709272431835646917270716674840585730484856int, 201607133262493957915185796863483649165522522432915266401783436155196135812int);
    lemma_power_square(3, p, 2097152, 201607133262493957915185796863483649165522522432915266401783436155196135812int, 3209512596479222591759600015782939512110386564393059480961544619845487158744int);
    lemma_power_square(3, p, 4194304, 3209512596479222591759600015782939512110386564393059480961544619845487158744int, 2693029631393922279263137318236027275190448562530349799537419249255676404055int);
    lemma_power_square(3, p, 8388608, 2693029631393922279263137318236027275190448562530349799537419249255676404055int, 1509892371810992646698611679663068286038795959625452887545574623696660291844int);
    lemma_power_square(3, p, 16777216, 1509892371810992646698611679663068286038795959625452887545574623696660291844int, 3568768547554177051794798388717651000849204991378113452444240000269257069329int);
    lemma_power_square(3, p, 33554432, 3568768547554177051794798388717651000849204991378113452444240000269257069329int, 1823602279275602704310256158595409679759480538839220980273064234971038699086int);
    lemma_power_square(3, p, 67108864, 1823602279275602704310256158595409679759480538839220980273064234971038699086int, 2747892830526604879903691808495037926268409869515051418454456913629320125375int);
    lemma_power_square(3, p, 134217728, 2747892830526604879903691808495037926268409869515051418454456913629320125375int, 319413824795353134107523504536916809854507421922854619507823294111656749877int);
    lemma_power_square(3, p, 268435456, 319413824795353134107523504536916809854507421922854619507823294111656749877int, 1668595394236160476851029031533376038365588757064605425875015443480192058864int);
    lemma_power_square(3, p, 536870912, 1668595394236160476851029031533376038365588757064605425875015443480192058864int, 2611761693084520479536087083479266548150884593510189619259727534773406558548int);
    lemma_power_square(3, p, 1073741824, 2611761693084520479536087083479266548150884593510189619259727534773406558548int, 2167375975381965342806393220809050810823493406108214500813200579326927923193int);
    lemma_power_square(3, p, 2147483648, 2167375975381965342806393220809050810823493406108214500813200579326927923193int, 2886002170161978643952306148416252473655112714187949422111037768205221848909int);
}

#[verifier::rlimit(60)]
proof fn lemma_generator_to_root_part_3()
    requires
        fpow(GENERATOR as int, 4294967296, modulus()) == 2886002170161978643952306148416252473655112714187949422111037768205221848909int,
    ensures
        fpow(GENERATOR as int, 281474976710656, modulus()) == 1530720078595167213635783142522265736842341284697751518284590516043265007377int,
{
    let p = modulus();
    lemma_power_square(3, p, 4294967296, 2886002170161978643952306148416252473655112714187949422111037768205221848909int, 1313274776091727320922534688638777105817640030869945784534147549555629278952int);
    lemma_power_square(3, p, 8589934592, 1313274776091727320922534688638777105817640030869945784534147549555629278952int, 2245281518551265352765472115578043861934522286339023762215115494483481907353int);
    lemma_power_square(3, p, 17179869184, 2245281518551265352765472115578043861934522286339023762215115494483481907353int, 1569875954143203154163427250504603565609653074554818505648664754710090335501int);
    lemma_power_square(3, p, 34359738368, 1569875954143203154163427250504603565609653074554818505648664754710090335501int, 2429706190075293907088750883082843895007423015235384298101183830433136794070int);
    lemma_power_square(3, p, 68719476736, 2429706190075293907088750883082843895007423015235384298101183830433136794070int, 3472792471287909590172201648206224161256512509824097971615527907002221103731int);
    lemma_power_square(3, p, 137438953472, 3472792471287909590172201648206224161256512509824097971615527907002221103731int, 956999514996091098724471677037338740940184085071133020042303413588317672823int);
    lemma_power_square(3, p, 274877906944, 956999514996091098724471677037338740940184085071133020042303413588317672823int, 1146368340459479873130366869967066445150589199498867979455973548879657195494int);
    lemma_power_square(3, p, 549755813888, 1146368340459479873130366869967066445150589199498867979455973548879657195494int, 2334805146953837139201516561685782937088482857856574499980130286034417768484int);
    lemma_power_square(3, p, 1099511627776, 2334805146953837139201516561685782937088482857856574499980130286034417768484int, 2686703077685287602281501764841403130494758479030607774348414977490177929639int);
    lemma_power_square(3, p, 2199023255552, 2686703077685287602281501764841403130494758479030607774348414977490177929639int, 427472349553249834671697394545758869542084837542977466616643167691942496810int);
    lemma_power_square(3, p, 4398046511104, 427472349553249834671697394545758869542084837542977466616643167691942496810int, 2086006670851146793704615577696536920678711055584668872130080724181815193284int);
    lemma_power_square(3, p, 8796093022208, 2086006670851146793704615577696536920678711055584668872130080724181815193284int, 3290105164998930461315816235563145387968364808097578127217854292425441920719int);
    lemma_power_square(3, p, 17592186044416, 3290105164998930461315816235563145387968364808097578127217854292425441920719int, 2722989004671135287476952592509392516306884885554126154544709114747387820607int);
    lemma_power_square(3, p, 35184372088832, 2722989004671135287476952592509392516306884885554126154544709114747387820607int, 2464053869466896222786342658241688207811131999121128568989137433565109348160int);
    lemma_power_square(3, p, 70368744177664, 2464053869466896222786342658241688207811131999121128568989137433565109348160int, 2017329450445684039423443084056143273632384594959533621159607155439052236033int);
    lemma_power_square(3, p, 140737488355328, 2017329450445684039423443084056143273632384594959533621159607155439052236033int, 1530720078595167213635783142522265736842341284697751518284590516043265007377int);
}

#[verifier::rlimit(60)]
proof fn lemma_generator_to_root_part_4()
    requires
        fpow(GENERATOR as int, 281474976710656, modulus()) == 1530720078595167213635783142522265736842341284697751518284590516043265007377int,
    ensures
        fpow(GENERATOR as int, 576460752303423505, modulus()) == 145784604816374866144131285430889962727208297722245411306711449302875041684int,
{
    let p = modulus();
    lemma_power_square(3, p, 281474976710656, 1530720078595167213635783142522265736842341284697751518284590516043265007377int, 3090064038033391259471530843280935954260467008634987039335256545161997117288int);
    lemma_power_square(3, p, 562949953421312, 3090064038033391259471530843280935954260467008634987039335256545161997117288int, 2498071738681922166907728494889454618493559806097289237187453945295716971051int);
    lemma_power_square(3, p, 1125899906842624, 2498071738681922166907728494889454618493559806097289237187453945295716971051int, 1360233295033051535785106638413603744678195274026486547870751064701648948194int);
    lemma_power_square(3, p, 2251799813685248, 1360233295033051535785106638413603744678195274026486547870751064701648948194int, 1655330069672712495676862622089127662800137738240779472885588859810447479455int);
    lemma_power_square(3, p, 4503599627370496, 1655330069672712495676862622089127662800137738240779472885588859810447479455int, 2878375937417693147453319788847269590265002585209713630265977524146231813764int);
    lemma_power_square(3, p, 9007199254740992, 2878375937417693147453319788847269590265002585209713630265977524146231813764int, 1139661834554995857375682110630728020115316336744735318238274414836060401598int);
    lemma_power_square_times(3, p, 18014398509481984, 1139661834554995857375682110630728020115316336744735318238274414836060401598int, 1080888913169818436698861231261081131843049047342628034567703671310845144636int, 3242666739509455310096583693783243395529147142027884103703111013932535433908int);
    lemma_power_square(3, p, 36028797018963969, 3242666739509455310096583693783243395529147142027884103703111013932535433908int, 2525546765427449653625500761445946038831793971578803687426848629974632440440int);
    lemma_power_square(3, p, 72057594037927938, 2525546765427449653625500761445946038831793971578803687426848629974632440440int, 1734734037957611425251428642127214768121831044436357405380258775664436889644int);
    lemma_power_square(3, p, 144115188075855876, 1734734037957611425251428642127214768121831044436357405380258775664436889644int, 27309329274673737566826462355512228091930028609542790075572735595640344421int);
    lemma_power_square_times(3, p, 288230376151711752, 27309329274673737566826462355512228091930028609542790075572735595640344421int, 48594868272124955381377095143629987575736099240748470435570483100958347228int, 145784604816374866144131285430889962727208297722245411306711449302875041684int);
}

/// `GENERATOR` raised to the odd part of `M - 1` is the root of unity `G`.
proof fn lemma_generator_to_root()
    ensures
        fpow(GENERATOR as int, 576460752303423505, modulus()) == 145784604816374866144131285430889962727208297722245411306711449302875041684int,
{
    lemma_power_first(GENERATOR as int, modulus());
    lemma_generator_to_root_part_1();
    lemma_generator_to_root_part_2();
    lemma_generator_to_root_part_3();
    lemma_generator_to_root_part_4();
}

#[verifier::rlimit(60)]
proof fn lemma_power_without_5_part_1()
    requires
        fpow(two_power(), 1, modulus()) == 435370109474914714129521158467059741824376378869643726680529596415811661392int,
    ensures
        fpow(two_power(), 104857, modulus()) == 1941848870890573626908961742589350845879321629117349119443157662522551029int,
{
    let p = modulus();
    lemma_power_square_times(435370109474914714129521158467059741824376378869643726680529596415811661392int, p, 1, 435370109474914714129521158467059741824376378869643726680529596415811661392int, 613509921447721154315098356118298563753800042714999485889542087563528056433int, 492765573471239017132289827640151719215383433872125338541823374325554278541int);
    lemma_power_square(435370109474914714129521158467059741824376378869643726680529596415811661392int, p, 3, 492765573471239017132289827640151719215383433872125338541823374325554278541int, 2083278410912771348755513181668397803651971818452609742626967079505471362328int);
    lemma_power_square(435370109474914714129521158467059741824376378869643726680529596415811661392int, p, 6, 2083278410912771348755513181668397803651971818452609742626967079505471362328int, 838488137098258434375578074929281323014943359534963150501371301753139173080int);
    lemma_power_square_times(435370109474914714129521158467059741824376378869643726680529596415811661392int, p, 12, 838488137098258434375578074929281323014943359534963150501371301753139173080int, 905876012437984725756576717137799635897117754130147068781727735762541868869int, 1128929639579691737669691858478855518261111814167110439730956212351954353029int);
    lemma_power_square_times(435370109474914714129521158467059741824376378869643726680529596415811661392int, p, 25, 1128929639579691737669691858478855518261111814167110439730956212351954353029int, 1877710512958482701555409499086564480182436883325204070338230043018524326451int, 1772795719195391442471308728592046326217167319135822017327024796366832107711int);
    lemma_power_square(435370109474914714129521158467059741824376378869643726680529596415811661392int, p, 51, 1772795719195391442471308728592046326217167319135822017327024796366832107711int, 762341547774535742989579207522731192550921136230767794201584921742775189482int);
    lemma_power_square(435370109474914714129521158467059741824376378869643726680529596415811661392int, p, 102, 762341547774535742989579207522731192550921136230767794201584921742775189482int, 367944828693549243043438178554613032428979114351187114202669893042732116825int);
    lemma_power_square_times(435370109474914714129521158467059741824376378869643726680529596415811661392int, p, 204, 367944828693549243043438178554613032428979114351187114202669893042732116825int, 407471972847325800423430817132320356510326976146506471582701865742066743591int, 314263287319112475283689683379241495992149162515238050752769491527308314029int);
    lemma_power_square_times(435370109474914714129521158467059741824376378869643726680529596415811661392int, p, 409, 314263287319112475283689683379241495992149162515238050752769491527308314029int, 1078861714155252729070174212304796696228577893671239480806749514419254232391int, 2178060455189502116661729251291761552972731893341219039922161465645361949719int);
    lemma_power_square(435370109474914714129521158467059741824376378869643726680529596415811661392int, p, 819, 2178060455189502116661729251291761552972731893341219039922161465645361949719int, 3517440620322965523934963990376464454606533779635769287014098246054891144767int);
    lemma_power_square(435370109474914714129521158467059741824376378869643726680529596415811661392int, p, 1638, 3517440620322965523934963990376464454606533779635769287014098246054891144767int, 821499103283503492801752154983412734527843995927507878140847885987236579503int);
    lemma_power_square_times(435370109474914714129521158467059741824376378869643726680529596415811661392int, p, 3276, 821499103283503492801752154983412734527843995927507878140847885987236579503int, 3209136430291792583086624382011315448159344522138350306018084676419336650866int, 2644760092423683411781489867145469870087786860333882974439889464242439249736int);
    lemma_power_square_times(435370109474914714129521158467059741824376378869643726680529596415811661392int, p, 6553, 2644760092423683411781489867145469870087786860333882974439889464242439249736int, 3303135342864839944130224040300104756719254346585054628594638869552938465736int, 3453826970910056029063463289276253603213840401079520292078363811849611839036int);
    lemma_power_square(435370109474914714129521158467059741824376378869643726680529596415811661392int, p, 13107, 3453826970910056029063463289276253603213840401079520292078363811849611839036int, 3014069015716307429965735631215836554202826583327867963097380468536801291057int);
    lemma_power_square(435370109474914714129521158467059741824376378869643726680529596415811661392int, p, 26214, 3014069015716307429965735631215836554202826583327867963097380468536801291057int, 1699714250010509226909793411751318804251971952698334823695502343079793740869int);
    lemma_power_square_times(435370109474914714129521158467059741824376378869643726680529596415811661392int, p, 52428, 1699714250010509226909793411751318804251971952698334823695502343079793740869int, 1179961669840766672314601126829867196411899610862730199093496708226349646888int, 1941848870890573626908961742589350845879321629117349119443157662522551029int);
}

#[verifier::rlimit(60)]
proof fn lemma_power_without_5_part_2()
    requires
        fpow(two_power(), 104857, modulus()) == 1941848870890573626908961742589350845879321629117349119443157662522551029int,
    ensures
        fpow(two_power(), 6871947673, modulus()) == 3155316938852890138321432685919921040328035584178542157721936008149715687981int,
{
    let p = modulus();
    lemma_power_square_times(435370109474914714129521158467059741824376378869643726680529596415811661392int, p, 104857, 1941848870890573626908961742589350845879321629117349119443157662522551029int, 1253914104379043358577846891697671016979707462938639497333474014896644417297int, 1452640310636345717125387049390500509862766739308618189427554329649225751292int);
    lemma_power_square(435370109474914714129521158467059741824376378869643726680529596415811661392int, p, 209715, 1452640310636345717125387049390500509862766739308618189427554329649225751292int, 1690317982287454988510535183728293637201588354144161695390148372496005539958int);
    lemma_power_square(435370109474914714129521158467059741824376378869643726680529596415811661392int, p, 419430, 1690317982287454988510535183728293637201588354144161695390148372496005539958int, 1648030135249354862652309577128589941622040642387800293253079248185694609331int);
    lemma_power_square_times(435370109474914714129521158467059741824376378869643726680529596415811661392int, p, 838860, 1648030135249354862652309577128589941622040642387800293253079248185694609331int, 870984872096629779593506530691552855933290416765121576344434232995284475201int, 2039964469453765505125347257283347007685550924759457707719615637466113804266int);
    lemma_power_square_times(435370109474914714129521158467059741824376378869643726680529596415811661392int, p, 1677721, 2039964469453765505125347257283347007685550924759457707719615637466113804266int, 3395894640090179409511937403588870533891018186353156293390550791743213956283int, 3546356944566682857616796348389945489080989688140391564240209404793021836687int);
    lemma_power_square(435370109474914714129521158467059741824376378869643726680529596415811661392int, p, 3355443, 3546356944566682857616796348389945489080989688140391564240209404793021836687int, 1134019722696212930002365236472353161861063730075345490634238078580928144697int);
    lemma_power_square(435370109474914714129521158467059741824376378869643726680529596415811661392int, p, 6710886, 1134019722696212930002365236472353161861063730075345490634238078580928144697int, 1927575519119221478998533540076321034710132905222453633226688574413071071076int);
    lemma_power_square_times(435370109474914714129521158467059741824376378869643726680529596415811661392int, p, 13421772, 1927575519119221478998533540076321034710132905222453633226688574413071071076int, 2452191126067976883195511630912135729160921804656341072471702849225209410346int, 1439311863632434346872084701157947548564730802664841775007771214295802105677int);
    lemma_power_square_times(435370109474914714129521158467059741824376378869643726680529596415811661392int, p, 26843545, 1439311863632434346872084701157947548564730802664841775007771214295802105677int, 2519487572396330986393974935161840788842852621586860624575705597040187365804int, 1144381418029930522248528049079372963254256547933039474345994226890604162833int);
    lemma_power_square(435370109474914714129521158467059741824376378869643726680529596415811661392int, p, 53687091, 1144381418029930522248528049079372963254256547933039474345994226890604162833int, 2483202515479856712444648054448505868534362831874271459898500734563107456405int);
    lemma_power_square(435370109474914714129521158467059741824376378869643726680529596415811661392int, p, 107374182, 2483202515479856712444648054448505868534362831874271459898500734563107456405int, 3356671313625440194241467649105478160037777127949463204020217212196251341217int);
    lemma_power_square_times(435370109474914714129521158467059741824376378869643726680529596415811661392int, p, 214748364, 3356671313625440194241467649105478160037777127949463204020217212196251341217int, 1500121966793106626227549815542677209128058607763349417453968915811902595686int, 3408841148961335288450465033351565284036173208228523422231678879417072405235int);
    lemma_power_square_times(435370109474914714129521158467059741824376378869643726680529596415811661392int, p, 429496729, 3408841148961335288450465033351565284036173208228523422231678879417072405235int, 1258118022449533341152839416659371368610826018947099638126739793317767692010int, 533585610362284087803497852563601154838325660142962004529366770785241296111int);
    lemma_power_square(435370109474914714129521158467059741824376378869643726680529596415811661392int, p, 858993459, 533585610362284087803497852563601154838325660142962004529366770785241296111int, 251154619705273852002062505369934818059529454586735364684395080455400531640int);
    lemma_power_square(435370109474914714129521158467059741824376378869643726680529596415811661392int, p, 1717986918, 251154619705273852002062505369934818059529454586735364684395080455400531640int, 3002674440127483944099621520088996564600385339621804148895472323950121617854int);
    lemma_power_square_times(435370109474914714129521158467059741824376378869643726680529596415811661392int, p, 3435973836, 3002674440127483944099621520088996564600385339621804148895472323950121617854int, 407397848262943550969373558460803220470541666988053921941018351540743537176int, 3155316938852890138321432685919921040328035584178542157721936008149715687981int);
}

#[verifier::rlimit(60)]
proof fn lemma_power_without_5_part_3()
    requires
        fpow(two_power(), 6871947673, modulus()) == 3155316938852890138321432685919921040328035584178542157721936008149715687981int,
    ensures
        fpow(two_power(), 450359962737049, modulus()) == 2565829169149108608453817215967804597830392602740934367915985512008501471708int,
{
    let p = modulus();
    lemma_power_square_times(435370109474914714129521158467059741824376378869643726680529596415811661392int, p, 6871947673, 3155316938852890138321432685919921040328035584178542157721936008149715687981int, 1990271542500668345319179788704897726698323081992879646358268745107168472657int, 3012468896080397302421448547957876089682677499081422876114921507644651635558int);
    lemma_power_square(435370109474914714129521158467059741824376378869643726680529596415811661392int, p, 13743895347, 3012468896080397302421448547957876089682677499081422876114921507644651635558int, 1149993071262205535646594174952457298687169611960003233915747775266012688854int);
    lemma_power_square(435370109474914714129521158467059741824376378869643726680529596415811661392int, p, 27487790694, 1149993071262205535646594174952457298687169611960003233915747775266012688854int, 1033218536110907256844242309071647105728371541790040635336292635841814425345int);
    lemma_power_square_times(435370109474914714129521158467059741824376378869643726680529596415811661392int, p, 54975581388, 1033218536110907256844242309071647105728371541790040635336292635841814425345int, 500695186272689260790264329793302532819623845731692405744148674081023027110int, 1683185867807144705467254533352451393659072285984125052428927379152070665201int);
    lemma_power_square_times(435370109474914714129521158467059741824376378869643726680529596415811661392int, p, 109951162777, 1683185867807144705467254533352451393659072285984125052428927379152070665201int, 597818188211421618145980311064833750093232908033553631848503349735435467210int, 1433081924537427761007081322391198891591803753304933209850667314619817480870int);
    lemma_power_square(435370109474914714129521158467059741824376378869643726680529596415811661392int, p, 219902325555, 1433081924537427761007081322391198891591803753304933209850667314619817480870int, 2918923564296342423466950565788736598679847528605904484307600905636378917006int);
    lemma_power_square(435370109474914714129521158467059741824376378869643726680529596415811661392int, p, 439804651110, 2918923564296342423466950565788736598679847528605904484307600905636378917006int, 2840149707901924721869175369026254150096018768824128641727642769990208943928int);
    lemma_power_square_times(435370109474914714129521158467059741824376378869643726680529596415811661392int, p, 879609302220, 2840149707901924721869175369026254150096018768824128641727642769990208943928int, 2805923821878097666283024998082507888942348925643222600826251042974384778232int, 335028874946052578117703477477377653661848406388742394886840238497537583036int);
    lemma_power_square_times(435370109474914714129521158467059741824376378869643726680529596415811661392int, p, 1759218604441, 335028874946052578117703477477377653661848406388742394886840238497537583036int, 3386188626631418137942376405412707741132917220505704186831004312902666583197int, 1661785732922532591448010514729082931276872030267202748250950538271181325118int);
    lemma_power_square(435370109474914714129521158467059741824376378869643726680529596415811661392int, p, 3518437208883, 1661785732922532591448010514729082931276872030267202748250950538271181325118int, 2425016832831035977261079268681812503796499060015622381003484921697102028365int);
    lemma_power_square(435370109474914714129521158467059741824376378869643726680529596415811661392int, p, 7036874417766, 2425016832831035977261079268681812503796499060015622381003484921697102028365int, 2529320733377380221206921717934106809705870604416676744354854224526478836625int);
    lemma_power_square_times(435370109474914714129521158467059741824376378869643726680529596415811661392int, p, 14073748835532, 2529320733377380221206921717934106809705870604416676744354854224526478836625int, 1333796150046929816327097953403319678708989207832098926246412433546962440522int, 2908055724745039285867891979928189521747539258743552629998566402862919254656int);
    lemma_power_square_times(435370109474914714129521158467059741824376378869643726680529596415811661392int, p, 28147497671065, 2908055724745039285867891979928189521747539258743552629998566402862919254656int, 2592237082871293376720182279448672642179153481438460877315685299336464905205int, 3104920060739509668587681567021767643342925014629676878617588087645715466987int);
    lemma_power_square(435370109474914714129521158467059741824376378869643726680529596415811661392int, p, 56294995342131, 3104920060739509668587681567021767643342925014629676878617588087645715466987int, 2393281633853010290671819241782586667183459818603491671963886352139959675047int);
    lemma_power_square(435370109474914714129521158467059741824376378869643726680529596415811661392int, p, 112589990684262, 2393281633853010290671819241782586667183459818603491671963886352139959675047int, 1088875470955586212319969391654216498272443490688981988726693842494452298894int);
    lemma_power_square_times(435370109474914714129521158467059741824376378869643726680529596415811661392int, p, 225179981368524, 1088875470955586212319969391654216498272443490688981988726693842494452298894int, 720494070289559195850032756515315140726992441679192986368115352116686634288int, 2565829169149108608453817215967804597830392602740934367915985512008501471708int);
}

#[verifier::rlimit(60)]
proof fn lemma_power_without_5_part_4()
    requires
        fpow(two_power(), 450359962737049, modulus()) == 2565829169149108608453817215967804597830392602740934367915985512008501471708int,
    ensures
        fpow(two_power(), 115292150460684701, modulus()) == 3308959683784840091244335558813507016181706711517320724035349135300124977711int,
{
    let p = modulus();
    lemma_power_square_times(435370109474914714129521158467059741824376378869643726680529596415811661392int, p, 450359962737049, 2565829169149108608453817215967804597830392602740934367915985512008501471708int, 889621761337726359749275350652980491401740387578612901876540057842180522375int, 2952707090477111733223686828210683961752495585839371489729967021528352826106int);
    lemma_power_square(435370109474914714129521158467059741824376378869643726680529596415811661392int, p, 900719925474099, 2952707090477111733223686828210683961752495585839371489729967021528352826106int, 821373696089278435294998758556282146758281743301955040567332811245507806185int);
    lemma_power_square(435370109474914714129521158467059741824376378869643726680529596415811661392int, p, 1801439850948198, 821373696089278435294998758556282146758281743301955040567332811245507806185int, 246424890744523118791834308877376402759587091083467921301209503935007192683int);
    lemma_power_square_times(435370109474914714129521158467059741824376378869643726680529596415811661392int, p, 3602879701896396, 246424890744523118791834308877376402759587091083467921301209503935007192683int, 2174675280221350016379869415153192441811878148906955638457440156098736107272int, 2230611317297018272599362432629835690369462060216553691791303344366829802464int);
    lemma_power_square_times(435370109474914714129521158467059741824376378869643726680529596415811661392int, p, 7205759403792793, 2230611317297018272599362432629835690369462060216553691791303344366829802464int, 342421757749224786250954455714188525178415218367720255539394690995290478757int, 1092197818347828172026177282493533727864398871659602879955497309901708904437int);
    lemma_power_square_times(435370109474914714129521158467059741824376378869643726680529596415811661392int, p, 14411518807585587, 1092197818347828172026177282493533727864398871659602879955497309901708904437int, 2235321939080647461448548732925331761133028859684752086950925796755855230984int, 2994509795607527812874228876752111729037103279780070996377796995474481901228int);
    lemma_power_square(435370109474914714129521158467059741824376378869643726680529596415811661392int, p, 28823037615171175, 2994509795607527812874228876752111729037103279780070996377796995474481901228int, 1578906641827245121314545579333042321464187541255867317650996302787240364499int);
    lemma_power_square_times(435370109474914714129521158467059741824376378869643726680529596415811661392int, p, 57646075230342350, 1578906641827245121314545579333042321464187541255867317650996302787240364499int, 1162750296375954874980499836987458609377355528747112845235154748653319734669int, 3308959683784840091244335558813507016181706711517320724035349135300124977711int);
}

/// `TWO_POWER` raised to the odd part of `M - 1` without its factor `5`.
proof fn lemma_power_without_5()
    ensures
        fpow(two_power(), 115292150460684701, modulus()) == 3308959683784840091244335558813507016181706711517320724035349135300124977711int,
{
    lemma_power_first(two_power(), modulus());
    lemma_power_without_5_part_1();
    lemma_power_without_5_part_2();
    lemma_power_without_5_part_3();
    lemma_power_without_5_part_4();
}

#[verifier::rlimit(60)]
proof fn lemma_power_without_7_part_1()
    requires
        fpow(two_power(), 1, modulus()) == 435370109474914714129521158467059741824376378869643726680529596415811661392int,
    ensures
        fpow(two_power(), 74898, modulus()) == 356456567887832155885283266659244106713424937054168107620828604049350648590int,
{
    let p = modulus();
    lemma_power_square(435370109474914714129521158467059741824376378869643726680529596415811661392int, p, 1, 435370109474914714129521158467059741824376378869643726680529596415811661392int, 613509921447721154315098356118298563753800042714999485889542087563528056433int);
    lemma_power_square(435370109474914714129521158467059741824376378869643726680529596415811661392int, p, 2, 613509921447721154315098356118298563753800042714999485889542087563528056433int, 2358885374038495424370929912500211964716925491254811235841729314638687911230int);
    lemma_power_square_times(435370109474914714129521158467059741824376378869643726680529596415811661392int, p, 4, 2358885374038495424370929912500211964716925491254811235841729314638687911230int, 2322923053180500663025574442858574742825374477576726465875535954274846984980int, 1025476952516643672271807942903982250888867213348519435628727053287105403578int);
    lemma_power_square(435370109474914714129521158467059741824376378869643726680529596415811661392int, p, 9, 1025476952516643672271807942903982250888867213348519435628727053287105403578int, 1593983772557118743868193474271392389644962258580627890702441076948715085000int);
    lemma_power_square(435370109474914714129521158467059741824376378869643726680529596415811661392int, p, 18, 1593983772557118743868193474271392389644962258580627890702441076948715085000int, 938664662842669402359375575963738892161048273682382202697472263918451438007int);
    lemma_power_square_times(435370109474914714129521158467059741824376378869643726680529596415811661392int, p, 36, 938664662842669402359375575963738892161048273682382202697472263918451438007int, 1993961081373750369055244932653170651468573016750654578651493120642244534212int, 2238188035792780136749554981355326863015493085410295133250276415743949817488int);
    lemma_power_square(435370109474914714129521158467059741824376378869643726680529596415811661392int, p, 73, 2238188035792780136749554981355326863015493085410295133250276415743949817488int, 2759356185807562739973942210680039485070317170548171667905317890461642445650int);
    lemma_power_square(435370109474914714129521158467059741824376378869643726680529596415811661392int, p, 146, 2759356185807562739973942210680039485070317170548171667905317890461642445650int, 30559027728422461371464708899787157041826196759447627556151272742325291950int);
    lemma_power_square_times(435370109474914714129521158467059741824376378869643726680529596415811661392int, p, 292, 30559027728422461371464708899787157041826196759447627556151272742325291950int, 2636204585974153392696919440358797572102193139550576462400514956026583895412int, 2810105213417365619210218597923460630845953182810831178724966814175933664462int);
    lemma_power_square(435370109474914714129521158467059741824376378869643726680529596415811661392int, p, 585, 2810105213417365619210218597923460630845953182810831178724966814175933664462int, 2070131925211788368243199535088831375417720295418078933147289231217700244146int);
    lemma_power_square(435370109474914714129521158467059741824376378869643726680529596415811661392int, p, 1170, 2070131925211788368243199535088831375417720295418078933147289231217700244146int, 824708077306324352564369398378376731808565317186361074040990248951874138626int);
    lemma_power_square_times(435370109474914714129521158467059741824376378869643726680529596415811661392int, p, 2340, 824708077306324352564369398378376731808565317186361074040990248951874138626int, 2368384647504003292807953966848267930128332733654641109590661141703757026593int, 1474884370938979724396984595099216410975017577308315546803002021449426476927int);
    lemma_power_square(435370109474914714129521158467059741824376378869643726680529596415811661392int, p, 4681, 1474884370938979724396984595099216410975017577308315546803002021449426476927int, 980111823381686715346614665246369550233958194913674345249006805659844834189int);
    lemma_power_square(435370109474914714129521158467059741824376378869643726680529596415811661392int, p, 9362, 980111823381686715346614665246369550233958194913674345249006805659844834189int, 2744629761168958357738260954779347245104182100898542051373810419593663686035int);
    lemma_power_square_times(435370109474914714129521158467059741824376378869643726680529596415811661392int, p, 18724, 2744629761168958357738260954779347245104182100898542051373810419593663686035int, 1070602564596017300711151657197652494335310641433009727097827783944508001206int, 31675785854804680178894710701593726688841552633707994356982739988652387758int);
    lemma_power_square(435370109474914714129521158467059741824376378869643726680529596415811661392int, p, 37449, 31675785854804680178894710701593726688841552633707994356982739988652387758int, 356456567887832155885283266659244106713424937054168107620828604049350648590int);
}

#[verifier::rlimit(60)]
proof fn lemma_power_without_7_part_2()
    requires
        fpow(two_power(), 74898, modulus()) == 356456567887832155885283266659244106713424937054168107620828604049350648590int,
    ensures
        fpow(two_power(), 4908534052, modulus()) == 2655171813535978371400276273690491923321587076973199303550822679529858064579int,
{
    let p = modulus();
    lemma_power_square(435370109474914714129521158467059741824376378869643726680529596415811661392int, p, 74898, 356456567887832155885283266659244106713424937054168107620828604049350648590int, 3522978876226220114500108872745333652147820949650974428020993738689549211563int);
    lemma_power_square_times(435370109474914714129521158467059741824376378869643726680529596415811661392int, p, 149796, 3522978876226220114500108872745333652147820949650974428020993738689549211563int, 3424441341979783332367980301000623576754981661305107427577754803142529032952int, 1245450978910673012936907253624653948892475007326642518044668890359981321966int);
    lemma_power_square(435370109474914714129521158467059741824376378869643726680529596415811661392int, p, 299593, 1245450978910673012936907253624653948892475007326642518044668890359981321966int, 3059295528292246145663081463899544208503471775907147047182958190361436886546int);
    lemma_power_square(435370109474914714129521158467059741824376378869643726680529596415811661392int, p, 599186, 3059295528292246145663081463899544208503471775907147047182958190361436886546int, 3517749088742742487839621671389453302211735362326735715569650153517958923380int);
    lemma_power_square_times(435370109474914714129521158467059741824376378869643726680529596415811661392int, p, 1198372, 3517749088742742487839621671389453302211735362326735715569650153517958923380int, 1639644389979122874309947601907066061711743896197600942461389783955432782484int, 1449604232172232504208546384402987353461125666391577602106576034877906501239int);
    lemma_power_square(435370109474914714129521158467059741824376378869643726680529596415811661392int, p, 2396745, 1449604232172232504208546384402987353461125666391577602106576034877906501239int, 1361388471431100381385002650735887248642798406934301317731398003050163700975int);
    lemma_power_square(435370109474914714129521158467059741824376378869643726680529596415811661392int, p, 4793490, 1361388471431100381385002650735887248642798406934301317731398003050163700975int, 3095470239420453791712114985787712738986420336558772738163736346150035764324int);
    lemma_power_square_times(435370109474914714129521158467059741824376378869643726680529596415811661392int, p, 9586980, 3095470239420453791712114985787712738986420336558772738163736346150035764324int, 323416400731345665812970847531868693358496537298918497941191543905647277221int, 723966511277406805645770764293793352579482462469667019727996085892800871132int);
    lemma_power_square(435370109474914714129521158467059741824376378869643726680529596415811661392int, p, 19173961, 723966511277406805645770764293793352579482462469667019727996085892800871132int, 3215332347177810832495319139520845467668733296778339434087383927053959587585int);
    lemma_power_square(435370109474914714129521158467059741824376378869643726680529596415811661392int, p, 38347922, 3215332347177810832495319139520845467668733296778339434087383927053959587585int, 1991345998577894496157443638752512634461124219055769436976413743061208425666int);
    lemma_power_square_times(435370109474914714129521158467059741824376378869643726680529596415811661392int, p, 76695844, 1991345998577894496157443638752512634461124219055769436976413743061208425666int, 1466424903527536313693360311208439541327364232462753595225799643183882607401int, 462372247771877108794194196307333201236524883475596217229778439980172372521int);
    lemma_power_square(435370109474914714129521158467059741824376378869643726680529596415811661392int, p, 153391689, 462372247771877108794194196307333201236524883475596217229778439980172372521int, 1299605603912879482289472452204918370518674417128819494175284091928547659909int);
    lemma_power_square(435370109474914714129521158467059741824376378869643726680529596415811661392int, p, 306783378, 1299605603912879482289472452204918370518674417128819494175284091928547659909int, 2840409565556697813555642787472840985457405646277326459435197364552569505661int);
    lemma_power_square_times(435370109474914714129521158467059741824376378869643726680529596415811661392int, p, 613566756, 2840409565556697813555642787472840985457405646277326459435197364552569505661int, 437831291599678240006203306329236037411306687093859561336234527414067216216int, 2433427174972749609211246536172102598989001008805688799347558006751810603173int);
    lemma_power_square(435370109474914714129521158467059741824376378869643726680529596415811661392int, p, 1227133513, 2433427174972749609211246536172102598989001008805688799347558006751810603173int, 1629167565413579967950968340742696174005981699335459470649390544953618841542int);
    lemma_power_square(435370109474914714129521158467059741824376378869643726680529596415811661392int, p, 2454267026, 1629167565413579967950968340742696174005981699335459470649390544953618841542int, 2655171813535978371400276273690491923321587076973199303550822679529858064579int);
}

#[verifier::rlimit(60)]
proof fn lemma_power_without_7_part_3()
    requires
        fpow(two_power(), 4908534052, modulus()) == 2655171813535978371400276273690491923321587076973199303550822679529858064579int,
    ensures
        fpow(two_power(), 321685687669321, modulus()) == 1280481726190193023105381111428237117489063201388760323206061390955479041325int,
{
    let p = modulus();
    lemma_power_square_times(435370109474914714129521158467059741824376378869643726680529596415811661392int, p, 4908534052, 2655171813535978371400276273690491923321587076973199303550822679529858064579int, 1165065239597415747041269529926825822499002619005839281313658059689542652742int, 2529132493013632855173516579135603404907268828484140823727087770463455366631int);
    lemma_power_square(435370109474914714129521158467059741824376378869643726680529596415811661392int, p, 9817068105, 2529132493013632855173516579135603404907268828484140823727087770463455366631int, 1290684148643696492530807323828994479939823919513040792428126881679048609069int);
    lemma_power_square(435370109474914714129521158467059741824376378869643726680529596415811661392int, p, 19634136210, 1290684148643696492530807323828994479939823919513040792428126881679048609069int, 1258408559614503742239485986185875282591488642963939514898262824994984967634int);
    lemma_power_square_times(435370109474914714129521158467059741824376378869643726680529596415811661392int, p, 39268272420, 1258408559614503742239485986185875282591488642963939514898262824994984967634int, 271925905454139709804547436007345258589213782348302992483894489396912894751int, 1668703105626203756166485839793078579606520058488619455807244882474344104929int);
    lemma_power_square(435370109474914714129521158467059741824376378869643726680529596415811661392int, p, 78536544841, 1668703105626203756166485839793078579606520058488619455807244882474344104929int, 1233488530339538160411358176019302829282568877176210050467519897564868916129int);
    lemma_power_square(435370109474914714129521158467059741824376378869643726680529596415811661392int, p, 157073089682, 1233488530339538160411358176019302829282568877176210050467519897564868916129int, 1734327444037699530098778104552607981172188293069991213806585742859848408003int);
    lemma_power_square_times(435370109474914714129521158467059741824376378869643726680529596415811661392int, p, 314146179364, 1734327444037699530098778104552607981172188293069991213806585742859848408003int, 1482532568175947328771068148356088387207598351156637602895904797426041552183int, 966162611305113792296392230370525097112400179234191595691498422353197096603int);
    lemma_power_square(435370109474914714129521158467059741824376378869643726680529596415811661392int, p, 628292358729, 966162611305113792296392230370525097112400179234191595691498422353197096603int, 321383933778249524284617573064198572317382805903024998409507123844090987577int);
    lemma_power_square(435370109474914714129521158467059741824376378869643726680529596415811661392int, p, 1256584717458, 321383933778249524284617573064198572317382805903024998409507123844090987577int, 3416683871641825251769887203901180480012455396691975148417241597951825249164int);
    lemma_power_square_times(435370109474914714129521158467059741824376378869643726680529596415811661392int, p, 2513169434916, 3416683871641825251769887203901180480012455396691975148417241597951825249164int, 2047938707164033947706170592154373761020301817839533001572621189108316481571int, 1154378998681018254754041705433152884429701466252871532231690876784453289611int);
    lemma_power_square(435370109474914714129521158467059741824376378869643726680529596415811661392int, p, 5026338869833, 1154378998681018254754041705433152884429701466252871532231690876784453289611int, 723014131874826539052736685952352274463789355954053773664320078344730358198int);
    lemma_power_square(435370109474914714129521158467059741824376378869643726680529596415811661392int, p, 10052677739666, 723014131874826539052736685952352274463789355954053773664320078344730358198int, 1240422506015786622083692636885616312585656124846729697913271000316365310043int);
    lemma_power_square_times(435370109474914714129521158467059741824376378869643726680529596415811661392int, p, 20105355479332, 1240422506015786622083692636885616312585656124846729697913271000316365310043int, 3001081760407302639612498567659952225804919527531761372113236010550911889015int, 355788680093522410970677799512160417244614395814854800344507598398898503767int);
    lemma_power_square(435370109474914714129521158467059741824376378869643726680529596415811661392int, p, 40210710958665, 355788680093522410970677799512160417244614395814854800344507598398898503767int, 941764126895648159200992486637847756088980592302444960929291926537817129496int);
    lemma_power_square(435370109474914714129521158467059741824376378869643726680529596415811661392int, p, 80421421917330, 941764126895648159200992486637847756088980592302444960929291926537817129496int, 2230767305045496250644102535812982129015315588056266077884763560488272342171int);
    lemma_power_square_times(435370109474914714129521158467059741824376378869643726680529596415811661392int, p, 160842843834660, 2230767305045496250644102535812982129015315588056266077884763560488272342171int, 822334399909040743479901549396649714750781612602865546641704087799792991480int, 1280481726190193023105381111428237117489063201388760323206061390955479041325int);
}

#[verifier::rlimit(60)]
proof fn lemma_power_without_7_part_4()
    requires
        fpow(two_power(), 321685687669321, modulus()) == 1280481726190193023105381111428237117489063201388760323206061390955479041325int,
    ensures
        fpow(two_power(), 82351536043346215, modulus()) == 1851520180892574615271689023757296425671573239117098023092387916334024955364int,
{
    let p = modulus();
    lemma_power_square(435370109474914714129521158467059741824376378869643726680529596415811661392int, p, 321685687669321, 1280481726190193023105381111428237117489063201388760323206061390955479041325int, 491331709917046302180254728382655564734913014491952145823002954060400997433int);
    lemma_power_square(435370109474914714129521158467059741824376378869643726680529596415811661392int, p, 643371375338642, 491331709917046302180254728382655564734913014491952145823002954060400997433int, 3346130027558841141238019012677974114810312007587668004195827224568717604900int);
    lemma_power_square_times(435370109474914714129521158467059741824376378869643726680529596415811661392int, p, 1286742750677284, 3346130027558841141238019012677974114810312007587668004195827224568717604900int, 2384372549192850093342529908429445223280838493902803957112187989107442547075int, 2686022858809888901368974757904641341162831731682151129990283865570270793142int);
    lemma_power_square(435370109474914714129521158467059741824376378869643726680529596415811661392int, p, 2573485501354569, 2686022858809888901368974757904641341162831731682151129990283865570270793142int, 1204459058555706729329567079516222515439433417151907137640064602195581645715int);
    lemma_power_square(435370109474914714129521158467059741824376378869643726680529596415811661392int, p, 5146971002709138, 1204459058555706729329567079516222515439433417151907137640064602195581645715int, 2408694307012634237889390526235882214635407915597508597760853422392098983595int);
    lemma_power_square_times(435370109474914714129521158467059741824376378869643726680529596415811661392int, p, 10293942005418276, 2408694307012634237889390526235882214635407915597508597760853422392098983595int, 3221925205253988428278658140951735833779166118962722961555247929096118600128int, 1805766655145455018613725373336757668675240293603171816683849801182697187983int);
    lemma_power_square_times(435370109474914714129521158467059741824376378869643726680529596415811661392int, p, 20587884010836553, 1805766655145455018613725373336757668675240293603171816683849801182697187983int, 1655224201901553305526757902918498523583200929283791357923004635459619202985int, 2115153405871398164786081098901825977225390421767523936318050717872602477018int);
    lemma_power_square_times(435370109474914714129521158467059741824376378869643726680529596415811661392int, p, 41175768021673107, 2115153405871398164786081098901825977225390421767523936318050717872602477018int, 3613045951778453820484758373654892852723311461198273610463493770084305068570int, 1851520180892574615271689023757296425671573239117098023092387916334024955364int);
}

/// `TWO_POWER` raised to the odd part of `M - 1` without its factor `7`.
proof fn lemma_power_without_7()
    ensures
        fpow(two_power(), 82351536043346215, modulus()) == 1851520180892574615271689023757296425671573239117098023092387916334024955364int,
{
    lemma_power_first(two_power(), modulus());
    lemma_power_without_7_part_1();
    lemma_power_without_7_part_2();
    lemma_power_without_7_part_3();
    lemma_power_without_7_part_4();
}

#[verifier::rlimit(60)]
proof fn lemma_power_without_98714381_part_1()
    requires
        fpow(two_power(), 1, modulus()) == 435370109474914714129521158467059741824376378869643726680529596415811661392int,
    ensures
        fpow(two_power(), 89106, modulus()) == 1469763363777763209368914390586691340393552923962219094884687950195325904533int,
{
    let p = modulus();
    lemma_power_square(435370109474914714129521158467059741824376378869643726680529596415811661392int, p, 1, 435370109474914714129521158467059741824376378869643726680529596415811661392int, 613509921447721154315098356118298563753800042714999485889542087563528056433int);
    lemma_power_square_times(435370109474914714129521158467059741824376378869643726680529596415811661392int, p, 2, 613509921447721154315098356118298563753800042714999485889542087563528056433int, 2358885374038495424370929912500211964716925491254811235841729314638687911230int, 3572688450853104941934572909937646617156394699914835394076729670248436182857int);
    lemma_power_square(435370109474914714129521158467059741824376378869643726680529596415811661392int, p, 5, 3572688450853104941934572909937646617156394699914835394076729670248436182857int, 3547701173490132089930083079966592701742445478198501300725830394618387696727int);
    lemma_power_square_times(435370109474914714129521158467059741824376378869643726680529596415811661392int, p, 10, 3547701173490132089930083079966592701742445478198501300725830394618387696727int, 409323740940741567942166915175756477691857228763763491442994382523599276025int, 3103423320081559858071563767245478724673080353439178181358782641445568733259int);
    lemma_power_square_times(435370109474914714129521158467059741824376378869643726680529596415811661392int, p, 21, 3103423320081559858071563767245478724673080353439178181358782641445568733259int, 3148020938831500194607651538591817781179841239249010997356108963124546552806int, 1733455882442995424316216289176794520028478596933904233882412124290204102845int);
    lemma_power_square_times(435370109474914714129521158467059741824376378869643726680529596415811661392int, p, 43, 1733455882442995424316216289176794520028478596933904233882412124290204102845int, 2941317198586468085105237764732580770947584906677824735501272015672723426297int, 1867063403940158564303186854293235481397551351768085937922544034955746281899int);
    lemma_power_square(435370109474914714129521158467059741824376378869643726680529596415811661392int, p, 87, 1867063403940158564303186854293235481397551351768085937922544034955746281899int, 656006624262289085114642269847298317167071077070697673501036849497894894981int);
    lemma_power_square(435370109474914714129521158467059741824376378869643726680529596415811661392int, p, 174, 656006624262289085114642269847298317167071077070697673501036849497894894981int, 259436860517170983810029530904017213321020951947304967360405881904811834459int);
    lemma_power_square(435370109474914714129521158467059741824376378869643726680529596415811661392int, p, 348, 259436860517170983810029530904017213321020951947304967360405881904811834459int, 3325560138691375174856358974633527188140904580444531366055627549052624121389int);
    lemma_power_square(435370109474914714129521158467059741824376378869643726680529596415811661392int, p, 696, 3325560138691375174856358974633527188140904580444531366055627549052624121389int, 2366428782722668863102082845918754396972386253796109604328826503024034411454int);
    lemma_power_square(435370109474914714129521158467059741824376378869643726680529596415811661392int, p, 1392, 2366428782722668863102082845918754396972386253796109604328826503024034411454int, 2522980595614872399289344971092119667427034256272278370385275184705100979833int);
    lemma_power_square_times(435370109474914714129521158467059741824376378869643726680529596415811661392int, p, 2784, 2522980595614872399289344971092119667427034256272278370385275184705100979833int, 3450982016006572452883083076607196371181468604618617251749130693867082840551int, 822596350095873021352667339083426593698987876425428490182960618852194720402int);
    lemma_power_square(435370109474914714129521158467059741824376378869643726680529596415811661392int, p, 5569, 822596350095873021352667339083426593698987876425428490182960618852194720402int, 54511380482905998771575727540858070323545768808579990594276158843414993972int);
    lemma_power_square(435370109474914714129521158467059741824376378869643726680529596415811661392int, p, 11138, 54511380482905998771575727540858070323545768808579990594276158843414993972int, 3544334718768004383627877992229134773404184210769240476316625216807674174651int);
    lemma_power_square_times(435370109474914714129521158467059741824376378869643726680529596415811661392int, p, 22276, 3544334718768004383627877992229134773404184210769240476316625216807674174651int, 3089586380701791479543874398050177462768288876027873048723294852797207597295int, 1509923697619257481014236762069602348661215729859682937898916254098873528402int);
    lemma_power_square(435370109474914714129521158467059741824376378869643726680529596415811661392int, p, 44553, 1509923697619257481014236762069602348661215729859682937898916254098873528402int, 1469763363777763209368914390586691340393552923962219094884687950195325904533int);
}

#[verifier::rlimit(60)]
proof fn lemma_power_without_98714381_part_2()
    requires
        fpow(two_power(), 89106, modulus()) == 1469763363777763209368914390586691340393552923962219094884687950195325904533int,
    ensures
        fpow(two_power(), 5839683605, modulus()) == 453693109673681117537727662111245514496865925808934078772639020543100076400int,
{
    let p = modulus();
    lemma_power_square_times(435370109474914714129521158467059741824376378869643726680529596415811661392int, p, 89106, 1469763363777763209368914390586691340393552923962219094884687950195325904533int, 1248726416275237922283454627278760183332899223179930076469333021521934735635int, 645644558955519742044944556552463999159448624463565544978551287770461570343int);
    lemma_power_square(435370109474914714129521158467059741824376378869643726680529596415811661392int, p, 178213, 645644558955519742044944556552463999159448624463565544978551287770461570343int, 2340491473383677374833285231197118261909411423447502958715603918915737538035int);
    lemma_power_square(435370109474914714129521158467059741824376378869643726680529596415811661392int, p, 356426, 2340491473383677374833285231197118261909411423447502958715603918915737538035int, 86575576827978816245530257927774072972312754895371884084396453599981803205int);
    lemma_power_square(435370109474914714129521158467059741824376378869643726680529596415811661392int, p, 712852, 86575576827978816245530257927774072972312754895371884084396453599981803205int, 91642601320178162420836765603479032437523433689686688168366929339820843047int);
    lemma_power_square(435370109474914714129521158467059741824376378869643726680529596415811661392int, p, 1425704, 91642601320178162420836765603479032437523433689686688168366929339820843047int, 617722893606603771888322214190833404337268133222229682548466441942239638693int);
    lemma_power_square(435370109474914714129521158467059741824376378869643726680529596415811661392int, p, 2851408, 617722893606603771888322214190833404337268133222229682548466441942239638693int, 1912538387317856266418665247254974739582951797365308058719624880213175708435int);
    lemma_power_square(435370109474914714129521158467059741824376378869643726680529596415811661392int, p, 5702816, 1912538387317856266418665247254974739582951797365308058719624880213175708435int, 2434333252882624856969228781958780656942693771288873212590683536036340384735int);
    lemma_power_square(435370109474914714129521158467059741824376378869643726680529596415811661392int, p, 11405632, 2434333252882624856969228781958780656942693771288873212590683536036340384735int, 3027828203927916342297672991798686517899165605281041919374327717601948980310int);
    lemma_power_square(435370109474914714129521158467059741824376378869643726680529596415811661392int, p, 22811264, 3027828203927916342297672991798686517899165605281041919374327717601948980310int, 3277871242660853458778299573437913022786001033927919849298125313827415481709int);
    lemma_power_square(435370109474914714129521158467059741824376378869643726680529596415811661392int, p, 45622528, 3277871242660853458778299573437913022786001033927919849298125313827415481709int, 407722426990452887139835086639936518360706789133551055834591414720945849178int);
    lemma_power_square(435370109474914714129521158467059741824376378869643726680529596415811661392int, p, 91245056, 407722426990452887139835086639936518360706789133551055834591414720945849178int, 2848317861461036172282312450217947891290734299153386059045301744683738248805int);
    lemma_power_square_times(435370109474914714129521158467059741824376378869643726680529596415811661392int, p, 182490112, 2848317861461036172282312450217947891290734299153386059045301744683738248805int, 1940296428717559758668253696159879363803207895754031009392601734606919856841int, 930124421751914836867560669175474444395853950155102732392288059393296839091int);
    lemma_power_square(435370109474914714129521158467059741824376378869643726680529596415811661392int, p, 364980225, 930124421751914836867560669175474444395853950155102732392288059393296839091int, 1678266162333692641832510547407517315335373871219978303922196288745602864423int);
    lemma_power_square_times(435370109474914714129521158467059741824376378869643726680529596415811661392int, p, 729960450, 1678266162333692641832510547407517315335373871219978303922196288745602864423int, 1070092019188770929621523017580438265586992406662090515813695266296354104092int, 2396407779411528350174243177396675909265591946511305296313318500279983328520int);
    lemma_power_square(435370109474914714129521158467059741824376378869643726680529596415811661392int, p, 1459920901, 2396407779411528350174243177396675909265591946511305296313318500279983328520int, 3526785734061703981963097632928577057595879101041236779042087660625660040981int);
    lemma_power_square_times(435370109474914714129521158467059741824376378869643726680529596415811661392int, p, 2919841802, 3526785734061703981963097632928577057595879101041236779042087660625660040981int, 1303849866769280780343901369554508664067692858674203503249320870308021725961int, 453693109673681117537727662111245514496865925808934078772639020543100076400int);
}

/// `TWO_POWER` raised to the odd part of `M - 1` without its factor `98714381`.
proof fn lemma_power_without_98714381()
    ensures
        fpow(two_power(), 5839683605, modulus()) == 453693109673681117537727662111245514496865925808934078772639020543100076400int,
{
    lemma_power_first(two_power(), modulus());
    lemma_power_without_98714381_part_1();
    lemma_power_without_98714381_part_2();
}

#[verifier::rlimit(60)]
proof fn lemma_power_without_166848103_part_1()
    requires
        fpow(two_power(), 1, modulus()) == 435370109474914714129521158467059741824376378869643726680529596415811661392int,
    ensures
        fpow(two_power(), 105438, modulus()) == 60712929159460328972254938285287536755051103381344260095414321682498280930int,
{
    let p = modulus();
    lemma_power_square_times(435370109474914714129521158467059741824376378869643726680529596415811661392int, p, 1, 435370109474914714129521158467059741824376378869643726680529596415811661392int, 613509921447721154315098356118298563753800042714999485889542087563528056433int, 492765573471239017132289827640151719215383433872125338541823374325554278541int);
    lemma_power_square(435370109474914714129521158467059741824376378869643726680529596415811661392int, p, 3, 492765573471239017132289827640151719215383433872125338541823374325554278541int, 2083278410912771348755513181668397803651971818452609742626967079505471362328int);
    lemma_power_square(435370109474914714129521158467059741824376378869643726680529596415811661392int, p, 6, 2083278410912771348755513181668397803651971818452609742626967079505471362328int, 838488137098258434375578074929281323014943359534963150501371301753139173080int);
    lemma_power_square_times(435370109474914714129521158467059741824376378869643726680529596415811661392int, p, 12, 838488137098258434375578074929281323014943359534963150501371301753139173080int, 905876012437984725756576717137799635897117754130147068781727735762541868869int, 1128929639579691737669691858478855518261111814167110439730956212351954353029int);
    lemma_power_square_times(435370109474914714129521158467059741824376378869643726680529596415811661392int, p, 25, 1128929639579691737669691858478855518261111814167110439730956212351954353029int, 1877710512958482701555409499086564480182436883325204070338230043018524326451int, 1772795719195391442471308728592046326217167319135822017327024796366832107711int);
    lemma_power_square(435370109474914714129521158467059741824376378869643726680529596415811661392int, p, 51, 1772795719195391442471308728592046326217167319135822017327024796366832107711int, 762341547774535742989579207522731192550921136230767794201584921742775189482int);
    lemma_power_square_times(435370109474914714129521158467059741824376378869643726680529596415811661392int, p, 102, 762341547774535742989579207522731192550921136230767794201584921742775189482int, 367944828693549243043438178554613032428979114351187114202669893042732116825int, 1040867105920996730089228221507335556695259000957549302062482968361166119167int);
    lemma_power_square_times(435370109474914714129521158467059741824376378869643726680529596415811661392int, p, 205, 1040867105920996730089228221507335556695259000957549302062482968361166119167int, 2193494417221619844371785390784562616023496715403131044524696488392513750252int, 1479172311337270574565964767791704763163283039989235813565068199401899693244int);
    lemma_power_square_times(435370109474914714129521158467059741824376378869643726680529596415811661392int, p, 411, 1479172311337270574565964767791704763163283039989235813565068199401899693244int, 2329101729340289960016441230636307291164956092916872170720320963640292122452int, 886979477366388084916972151744945487888014611606410794596820122373522072940int);
    lemma_power_square_times(435370109474914714129521158467059741824376378869643726680529596415811661392int, p, 823, 886979477366388084916972151744945487888014611606410794596820122373522072940int, 1640804492964225414664397684973131585208270934890651165717838680232655375776int, 2025818264247434359117863529585201228333028553905130099167732931982760026599int);
    lemma_power_square(435370109474914714129521158467059741824376378869643726680529596415811661392int, p, 1647, 2025818264247434359117863529585201228333028553905130099167732931982760026599int, 2689316981643064389824093442654564863195354026917774484276974162251583341071int);
    lemma_power_square_times(435370109474914714129521158467059741824376378869643726680529596415811661392int, p, 3294, 2689316981643064389824093442654564863195354026917774484276974162251583341071int, 2221031172967003643762320055688331853612657762465070758156271714256390187750int, 3578321736770215512166241521212968200205812216182885096087214111130328098310int);
    lemma_power_square_times(435370109474914714129521158467059741824376378869643726680529596415811661392int, p, 6589, 3578321736770215512166241521212968200205812216182885096087214111130328098310int, 263850592880954013924524773475945436054392595149461455965175764152668784179int, 103679286238583226616297230191442988572465069340789098320848877285160602765int);
    lemma_power_square_times(435370109474914714129521158467059741824376378869643726680529596415811661392int, p, 13179, 103679286238583226616297230191442988572465069340789098320848877285160602765int, 3254957828461927442122867132473819921719932853397246656553378531808726285910int, 2232111307865977817511015433667590091400069977434162256221728510293716700664int);
    lemma_power_square_times(435370109474914714129521158467059741824376378869643726680529596415811661392int, p, 26359, 2232111307865977817511015433667590091400069977434162256221728510293716700664int, 578806664436538407243602652473896874414208287904756463298638398479710043313int, 1969957859122909845878360404818962221039060270678753324184423290117822642614int);
    lemma_power_square(435370109474914714129521158467059741824376378869643726680529596415811661392int, p, 52719, 1969957859122909845878360404818962221039060270678753324184423290117822642614int, 60712929159460328972254938285287536755051103381344260095414321682498280930int);
}

#[verifier::rlimit(60)]
proof fn lemma_power_without_166848103_part_2()
    requires
        fpow(two_power(), 105438, modulus()) == 60712929159460328972254938285287536755051103381344260095414321682498280930int,
    ensures
        fpow(two_power(), 3455003335, modulus()) == 1207048559333953006508035943589466114144098059416689470751510536462872144061int,
{
    let p = modulus();
    lemma_power_square(435370109474914714129521158467059741824376378869643726680529596415811661392int, p, 105438, 60712929159460328972254938285287536755051103381344260095414321682498280930int, 1492137817051833810838138222926431141033925350156572207812511439461099512988int);
    lemma_power_square_times(435370109474914714129521158467059741824376378869643726680529596415811661392int, p, 210876, 1492137817051833810838138222926431141033925350156572207812511439461099512988int, 2475342726370228211699965423258125203579041114437563142346494073877145781048int, 1995225753926743016075179711692265426628556954852452909166791232727307879628int);
    lemma_power_square(435370109474914714129521158467059741824376378869643726680529596415811661392int, p, 421753, 1995225753926743016075179711692265426628556954852452909166791232727307879628int, 2955362944801881517757350776018580879851448265745366969081981817412263599217int);
    lemma_power_square_times(435370109474914714129521158467059741824376378869643726680529596415811661392int, p, 843506, 2955362944801881517757350776018580879851448265745366969081981817412263599217int, 2215287353787524691037521500891478129055690039893227828713243781400595024341int, 460533975326859736431794864327402649150866710800308411121226925696812953840int);
    lemma_power_square(435370109474914714129521158467059741824376378869643726680529596415811661392int, p, 1687013, 460533975326859736431794864327402649150866710800308411121226925696812953840int, 3290577482913184718783005278980089593940821487695130025384808774323483392657int);
    lemma_power_square_times(435370109474914714129521158467059741824376378869643726680529596415811661392int, p, 3374026, 3290577482913184718783005278980089593940821487695130025384808774323483392657int, 1985158030442781858131376801639467099414302850995808825144020702457685722138int, 467533412139000543087164987042165290401446258241631361558856702692073735971int);
    lemma_power_square(435370109474914714129521158467059741824376378869643726680529596415811661392int, p, 6748053, 467533412139000543087164987042165290401446258241631361558856702692073735971int, 850927579745136359808845213150293562869886625196830147923113398208982094761int);
    lemma_power_square_times(435370109474914714129521158467059741824376378869643726680529596415811661392int, p, 13496106, 850927579745136359808845213150293562869886625196830147923113398208982094761int, 3566276117604351913874499336849651817291579361708467364838083779132168469641int, 2142500959396959561360195007816991878673000304566852919334049665537489369783int);
    lemma_power_square_times(435370109474914714129521158467059741824376378869643726680529596415811661392int, p, 26992213, 2142500959396959561360195007816991878673000304566852919334049665537489369783int, 2780529303963045133078051023366034790875228748068512235039932149281371527822int, 1147229462056722798061739273526454718812610767193347780788844383265297486938int);
    lemma_power_square(435370109474914714129521158467059741824376378869643726680529596415811661392int, p, 53984427, 1147229462056722798061739273526454718812610767193347780788844383265297486938int, 1842885869864258366059677440329316731420182850793135035777833924386801557280int);
    lemma_power_square(435370109474914714129521158467059741824376378869643726680529596415811661392int, p, 107968854, 1842885869864258366059677440329316731420182850793135035777833924386801557280int, 1471437936400633566929585268284769015040057417729590908963872782512014970315int);
    lemma_power_square(435370109474914714129521158467059741824376378869643726680529596415811661392int, p, 215937708, 1471437936400633566929585268284769015040057417729590908963872782512014970315int, 2286483501271272243473274748730799591995541105404571396705691135276542599811int);
    lemma_power_square_times(435370109474914714129521158467059741824376378869643726680529596415811661392int, p, 431875416, 2286483501271272243473274748730799591995541105404571396705691135276542599811int, 1267995149256623281051132520429713737089912337053035000994101225102651657872int, 3456236753429037277499622152193536468862478049068130275262872216938420554858int);
    lemma_power_square_times(435370109474914714129521158467059741824376378869643726680529596415811661392int, p, 863750833, 3456236753429037277499622152193536468862478049068130275262872216938420554858int, 2565236943179436166481376179049510745704163796167237440103492351912945832917int, 529624704899847628384893577834379998462783352966896577318907245955673576708int);
    lemma_power_square_times(435370109474914714129521158467059741824376378869643726680529596415811661392int, p, 1727501667, 529624704899847628384893577834379998462783352966896577318907245955673576708int, 3567684259059303844981411783585583878190876660861312939528607003316077053246int, 1207048559333953006508035943589466114144098059416689470751510536462872144061int);
}

/// `TWO_POWER` raised to the odd part of `M - 1` without its factor `166848103`.
proof fn lemma_power_without_166848103()
    ensures
        fpow(two_power(), 3455003335, modulus()) == 1207048559333953006508035943589466114144098059416689470751510536462872144061int,
{
    lemma_power_first(two_power(), modulus());
    lemma_power_without_166848103_part_1();
    lemma_power_without_166848103_part_2();
}

/// `M - 1` is `2^192` times the odd primes `5, 7, 98714381, 166848103`.
proof fn lemma_factors()
    ensures
        modulus() - 1 == pow2(192) * ODD_PART,
        ODD_PART == 5 * 7 * 98714381 * 166848103,
        pow2(192) == 6277101735386680763835789423207666416102355444464034512896int,
        pow2(191) == 3138550867693340381917894711603833208051177722232017256448int,
{
    lemma2_to64();
    lemma2_to64_rest();
    lemma_pow2_adds(32, 32);
    lemma_pow2_adds(64, 64);
    lemma_pow2_adds(128, 63);
    lemma_pow2_adds(128, 64);
    assert(pow2(64) == 0x1_0000_0000_0000_0000) by (nonlinear_arith)
        requires
            pow2(64) == pow2(32) * pow2(32),
            pow2(32) == 0x1_0000_0000,
    ;
    assert(pow2(128) == 0x1_0000_0000_0000_0000_0000_0000_0000_0000int) by (nonlinear_arith)
        requires
            pow2(128) == pow2(64) * pow2(64),
            pow2(64) == 0x1_0000_0000_0000_0000,
    ;
    assert(pow2(191) == 3138550867693340381917894711603833208051177722232017256448int)
        by (nonlinear_arith)
        requires
            pow2(191) == pow2(128) * pow2(63),
            pow2(128) == 0x1_0000_0000_0000_0000_0000_0000_0000_0000int,
            pow2(63) == 0x8000_0000_0000_0000,
    ;
    assert(pow2(192) == 6277101735386680763835789423207666416102355444464034512896int)
        by (nonlinear_arith)
        requires
            pow2(192) == pow2(128) * pow2(64),
            pow2(128) == 0x1_0000_0000_0000_0000_0000_0000_0000_0000int,
            pow2(64) == 0x1_0000_0000_0000_0000,
    ;
}

/// A prime that divides `M - 1` is two or one of its odd prime factors.
proof fn lemma_prime_factors(s: int)
    requires
        is_prime(s),
        divides(s, modulus() - 1),
    ensures
        s == 2 || s == 5 || s == 7 || s == 98714381 || s == 166848103,
{
    lemma_factors();
    lemma_pow2(192);
    lemma_pow_positive(2, 192);
    lemma_euclid(s, pow2(192) as int, ODD_PART as int);
    if divides(s, pow2(192) as int) {
        lemma_prime_divides_power_of_two(s, 192);
    } else {
        assert(5 * 115292150460684701 == 576460752303423505);
        lemma_euclid(s, 5, 115292150460684701);
        if divides(s, 5) {
            lemma_prime_5();
            lemma_prime_divides_prime(s, 5);
        } else {
            assert(7 * 16470307208669243 == 115292150460684701);
            lemma_euclid(s, 7, 16470307208669243);
            if divides(s, 7) {
                lemma_prime_7();
                lemma_prime_divides_prime(s, 7);
            } else {
                assert(98714381 * 166848103 == 16470307208669243);
                lemma_euclid(s, 98714381, 166848103);
                if divides(s, 98714381) {
                    lemma_prime_98714381();
                    lemma_prime_divides_prime(s, 98714381);
                } else {
                    lemma_prime_166848103();
                    lemma_prime_divides_prime(s, 166848103);
                }
            }
        }
    }
}

/// `GENERATOR` has the order `M - 1`.
pub proof fn lemma_generator_order()
    ensures
        is_order(GENERATOR as int, (modulus() - 1) as nat, modulus()),
{
    let g = GENERATOR as int;
    let p = modulus();
    let n = (modulus() - 1) as nat;
    lemma_factors();
    lemma_two_power();
    lemma_generator_to_root();
    lemma_fp252_root_squares();
    lemma2_to64();
    lemma2_to64_rest();
    // g^(modulus() - 1) == G^(2^192) == (G^(2^191))^2 == 1
    lemma_fpow_mul(g, ODD_PART as nat, 3138550867693340381917894711603833208051177722232017256448nat, p);
    lemma_fpow_mul(g, ODD_PART as nat, 6277101735386680763835789423207666416102355444464034512896nat, p);
    lemma_fpow_mul(root(), 3138550867693340381917894711603833208051177722232017256448nat, 2, p);
    assert(ODD_PART * 3138550867693340381917894711603833208051177722232017256448int == 1809251394333065606848661391547535052811553607665798349986546028067936010240int);
    assert(ODD_PART * 6277101735386680763835789423207666416102355444464034512896int == modulus() - 1);
    assert(3138550867693340381917894711603833208051177722232017256448nat * 2 == 6277101735386680763835789423207666416102355444464034512896int);
    assert(fpow(root(), 3138550867693340381917894711603833208051177722232017256448nat, p) == modulus() - 1);
    assert(fpow(g, 1809251394333065606848661391547535052811553607665798349986546028067936010240nat, p) == modulus() - 1);
    assert(fpow(g, n, p) == 1) by {
        lemma_power_first(modulus() - 1, p);
        lemma_power_square(modulus() - 1, p, 1, modulus() - 1, 1);
    }
    assert forall|s: int| is_prime(s) && #[trigger] divides(s, n as int) implies fpow(
        g,
        (n as int / s) as nat,
        p,
    ) != 1 by {
        lemma_prime_factors(s);
        if s == 2 {
            lemma_fundamental_div_mod_converse(n as int, 2, 1809251394333065606848661391547535052811553607665798349986546028067936010240int, 0);
        }
        if s == 5 {
            lemma_fundamental_div_mod_converse(n as int, 5, 723700557733226242739464556619014021124621443066319339994618411227174404096int, 0);
            lemma_power_without_5();
            lemma_fpow_mul(g, 6277101735386680763835789423207666416102355444464034512896nat, 115292150460684701, p);
            assert(6277101735386680763835789423207666416102355444464034512896nat * 115292150460684701 == 723700557733226242739464556619014021124621443066319339994618411227174404096int);
        }
        if s == 7 {
            lemma_fundamental_div_mod_converse(n as int, 7, 516928969809447316242474683299295729374729602190228099996156008019410288640int, 0);
            lemma_power_without_7();
            lemma_fpow_mul(g, 6277101735386680763835789423207666416102355444464034512896nat, 82351536043346215, p);
            assert(6277101735386680763835789423207666416102355444464034512896nat * 82351536043346215 == 516928969809447316242474683299295729374729602190228099996156008019410288640int);
        }
        if s == 98714381 {
            lemma_fundamental_div_mod_converse(n as int, 98714381, 36656288091054647991940736406938216080422033090919110357112932270080int, 0);
            lemma_power_without_98714381();
            lemma_fpow_mul(g, 6277101735386680763835789423207666416102355444464034512896nat, 5839683605, p);
            assert(6277101735386680763835789423207666416102355444464034512896nat * 5839683605 == 36656288091054647991940736406938216080422033090919110357112932270080int);
        }
        if s == 166848103 {
            lemma_fundamental_div_mod_converse(n as int, 166848103, 21687407429895269553632999849540213865201135761978646529610780508160int, 0);
            lemma_power_without_166848103();
            lemma_fpow_mul(g, 6277101735386680763835789423207666416102355444464034512896nat, 3455003335, p);
            assert(6277101735386680763835789423207666416102355444464034512896nat * 3455003335 == 21687407429895269553632999849540213865201135761978646529610780508160int);
        }
    }
    lemma_full_order(g, n, p);
}

/// Every nonzero residue modulo `M` has an inverse, and is taken to one by the
/// exponent `M - 1`.
pub proof fn lemma_units(x: int)
    requires
        0 < x < modulus(),
    ensures
        is_unit(x, modulus()),
        fpow(x, (modulus() - 1) as nat, modulus()) == 1,
{
    lemma_generator_order();
    lemma_all_units(GENERATOR as int, modulus(), x);
}

/// `M` is a prime.
pub proof fn lemma_modulus_is_prime()
    ensures
        is_prime(modulus()),
{
    assert forall|x: int| 0 < x < modulus() implies #[trigger] is_unit(x, modulus()) by {
        lemma_units(x);
    }
    lemma_units_make_prime(modulus());
}

} // verus!
