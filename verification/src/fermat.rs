//! Fermat's little theorem for the Goldilocks prime.
//!
//! The multiplicative group has order `N = P - 1 = 2^32 * 3 * 5 * 17 * 257 * 65537`, and 7
//! generates it: `7^N = 1` while `7^(N/q) != 1` for each prime `q` dividing `N`. From this
//! certificate the powers `7^0, ..., 7^(N-1)` are `N` distinct non-zero residues, hence all of
//! them, and every non-zero residue `a` satisfies `a^N = 1`.

use crate::goldilocks::prime;
use vstd::arithmetic::div_mod::*;
use vstd::arithmetic::mul::*;
use vstd::arithmetic::power::*;
use vstd::arithmetic::power2::*;
use vstd::prelude::*;
use vstd::relations::injective_on;
use vstd::set_lib::{lemma_int_range, lemma_map_size, lemma_subset_equality, set_int_range};

verus! {

/// The order of the multiplicative group, `P - 1`.
pub open spec fn group_order() -> nat {
    18446744069414584320
}

/// The generator used in the certificate.
pub open spec fn generator() -> int {
    7
}

/// `b^e mod m` by repeated squaring, a form that evaluates quickly.
pub open spec fn pow_mod(b: nat, e: nat, m: nat) -> nat
    decreases e,
{
    if e == 0 {
        1nat % m
    } else {
        let h = pow_mod(b, e / 2, m);
        let h2 = (h * h) % m;
        if e % 2 == 1 {
            (h2 * b) % m
        } else {
            h2
        }
    }
}

/// `pow_mod` computes `b^e mod m`.
pub proof fn lemma_pow_mod_is_pow(b: nat, e: nat, m: nat)
    requires
        m > 0,
    ensures
        pow_mod(b, e, m) == pow(b as int, e) % (m as int),
    decreases e,
{
    if e == 0 {
        lemma_pow0(b as int);
    } else {
        let k = e / 2;
        lemma_pow_mod_is_pow(b, k, m);
        let h = pow_mod(b, k, m);
        let x = pow(b as int, k);
        // b^e = (b^k)^2 * b^(e % 2)
        assert(e == k + k + e % 2);
        lemma_pow_adds(b as int, k, k);
        lemma_pow_adds(b as int, k + k, e % 2);
        lemma_pow0(b as int);
        lemma_pow1(b as int);
        lemma_mul_mod_noop(x, x, m as int);
        if e % 2 == 1 {
            lemma_mul_mod_noop_left(x * x, b as int, m as int);
        }
    }
}

/// The certificate: `7^N = 1` and `7^(N/q) != 1` for `q` in 2, 3, 5, 17, 257, 65537.
///
/// Each power is evaluated by square-and-multiply, one step per bit of its exponent, with the
/// value after every step written out.
pub proof fn lemma_generator_certificate()
    ensures
        pow(generator(), group_order()) % (prime() as int) == 1,
        pow(generator(), group_order() / 2) % (prime() as int) != 1,
        pow(generator(), group_order() / 3) % (prime() as int) != 1,
        pow(generator(), group_order() / 5) % (prime() as int) != 1,
        pow(generator(), group_order() / 17) % (prime() as int) != 1,
        pow(generator(), group_order() / 257) % (prime() as int) != 1,
        pow(generator(), group_order() / 65537) % (prime() as int) != 1,
{
    lemma_certificate_order();
    lemma_certificate_third();
    lemma_certificate_fifth();
    lemma_certificate_seventeenth();
    lemma_certificate_part_257();
    lemma_certificate_part_65537();
    lemma_pow_mod_is_pow(7, group_order(), prime());
    lemma_pow_mod_is_pow(7, group_order() / 2, prime());
    lemma_pow_mod_is_pow(7, group_order() / 3, prime());
    lemma_pow_mod_is_pow(7, group_order() / 5, prime());
    lemma_pow_mod_is_pow(7, group_order() / 17, prime());
    lemma_pow_mod_is_pow(7, group_order() / 257, prime());
    lemma_pow_mod_is_pow(7, group_order() / 65537, prime());
}

/// Square-and-multiply evaluation of `7^18446744069414584320` mod `P`.
#[verifier::spinoff_prover]
#[verifier::rlimit(50)]
proof fn lemma_certificate_order()
    ensures
        pow_mod(7, 18446744069414584320, 18446744069414584321) == 1,
        pow_mod(7, 9223372034707292160, 18446744069414584321) == 18446744069414584320,
{
    let p: nat = 18446744069414584321;
    assert(pow_mod(7, 0, p) == 1);
    lemma_pow_mod_step(7, 1, p, 1, 7);
    lemma_pow_mod_step(7, 3, p, 7, 343);
    lemma_pow_mod_step(7, 7, p, 343, 823543);
    lemma_pow_mod_step(7, 15, p, 823543, 4747561509943);
    lemma_pow_mod_step(7, 31, p, 4747561509943, 11074261478625843323);
    lemma_pow_mod_step(7, 63, p, 11074261478625843323, 12148266161370408270);
    lemma_pow_mod_step(7, 127, p, 12148266161370408270, 7007601668316978083);
    lemma_pow_mod_step(7, 255, p, 7007601668316978083, 8125271997680889877);
    lemma_pow_mod_step(7, 511, p, 8125271997680889877, 2624486902016877951);
    lemma_pow_mod_step(7, 1023, p, 2624486902016877951, 8253119735826302939);
    lemma_pow_mod_step(7, 2047, p, 8253119735826302939, 3543566522599720475);
    lemma_pow_mod_step(7, 4095, p, 3543566522599720475, 11981551684735969599);
    lemma_pow_mod_step(7, 8191, p, 11981551684735969599, 10062120588441922115);
    lemma_pow_mod_step(7, 16383, p, 10062120588441922115, 10485806445487905393);
    lemma_pow_mod_step(7, 32767, p, 10485806445487905393, 4139485063330164956);
    lemma_pow_mod_step(7, 65535, p, 4139485063330164956, 12134830135347446949);
    lemma_pow_mod_step(7, 131071, p, 12134830135347446949, 4326791766630348883);
    lemma_pow_mod_step(7, 262143, p, 4326791766630348883, 206761543466863628);
    lemma_pow_mod_step(7, 524287, p, 206761543466863628, 10086585273483141421);
    lemma_pow_mod_step(7, 1048575, p, 10086585273483141421, 1855730417186139594);
    lemma_pow_mod_step(7, 2097151, p, 1855730417186139594, 7626447102712710903);
    lemma_pow_mod_step(7, 4194303, p, 7626447102712710903, 7790920094560990216);
    lemma_pow_mod_step(7, 8388607, p, 7790920094560990216, 5901922255895126089);
    lemma_pow_mod_step(7, 16777215, p, 5901922255895126089, 8935258787870022506);
    lemma_pow_mod_step(7, 33554431, p, 8935258787870022506, 13093775858033092690);
    lemma_pow_mod_step(7, 67108863, p, 13093775858033092690, 11243737384857129666);
    lemma_pow_mod_step(7, 134217727, p, 11243737384857129666, 2063617152444052883);
    lemma_pow_mod_step(7, 268435455, p, 2063617152444052883, 13064848991504552222);
    lemma_pow_mod_step(7, 536870911, p, 13064848991504552222, 16593403251012455084);
    lemma_pow_mod_step(7, 1073741823, p, 16593403251012455084, 5859133952941131217);
    lemma_pow_mod_step(7, 2147483647, p, 5859133952941131217, 15659105665374529263);
    lemma_pow_mod_step(7, 4294967295, p, 15659105665374529263, 1753635133440165772);
    lemma_pow_mod_step(7, 8589934590, p, 1753635133440165772, 4614640910117430873);
    lemma_pow_mod_step(7, 17179869180, p, 4614640910117430873, 9123114210336311365);
    lemma_pow_mod_step(7, 34359738360, p, 9123114210336311365, 16116352524544190054);
    lemma_pow_mod_step(7, 68719476720, p, 16116352524544190054, 6414415596519834757);
    lemma_pow_mod_step(7, 137438953440, p, 6414415596519834757, 1213594585890690845);
    lemma_pow_mod_step(7, 274877906880, p, 1213594585890690845, 17096174751763063430);
    lemma_pow_mod_step(7, 549755813760, p, 17096174751763063430, 5456943929260765144);
    lemma_pow_mod_step(7, 1099511627520, p, 5456943929260765144, 9713644485405565297);
    lemma_pow_mod_step(7, 2199023255040, p, 9713644485405565297, 16905767614792059275);
    lemma_pow_mod_step(7, 4398046510080, p, 16905767614792059275, 5416168637041100469);
    lemma_pow_mod_step(7, 8796093020160, p, 5416168637041100469, 17654865857378133588);
    lemma_pow_mod_step(7, 17592186040320, p, 17654865857378133588, 3511170319078647661);
    lemma_pow_mod_step(7, 35184372080640, p, 3511170319078647661, 18146160046829613826);
    lemma_pow_mod_step(7, 70368744161280, p, 18146160046829613826, 9306717745644682924);
    lemma_pow_mod_step(7, 140737488322560, p, 9306717745644682924, 12380578893860276750);
    lemma_pow_mod_step(7, 281474976645120, p, 12380578893860276750, 6115771955107415310);
    lemma_pow_mod_step(7, 562949953290240, p, 6115771955107415310, 17776499369601055404);
    lemma_pow_mod_step(7, 1125899906580480, p, 17776499369601055404, 16207902636198568418);
    lemma_pow_mod_step(7, 2251799813160960, p, 16207902636198568418, 1532612707718625687);
    lemma_pow_mod_step(7, 4503599626321920, p, 1532612707718625687, 17492915097719143606);
    lemma_pow_mod_step(7, 9007199252643840, p, 17492915097719143606, 455906449640507599);
    lemma_pow_mod_step(7, 18014398505287680, p, 455906449640507599, 11353340290879379826);
    lemma_pow_mod_step(7, 36028797010575360, p, 11353340290879379826, 1803076106186727246);
    lemma_pow_mod_step(7, 72057594021150720, p, 1803076106186727246, 13797081185216407910);
    lemma_pow_mod_step(7, 144115188042301440, p, 13797081185216407910, 17870292113338400769);
    lemma_pow_mod_step(7, 288230376084602880, p, 17870292113338400769, 549755813888);
    lemma_pow_mod_step(7, 576460752169205760, p, 549755813888, 70368744161280);
    lemma_pow_mod_step(7, 1152921504338411520, p, 70368744161280, 17293822564807737345);
    lemma_pow_mod_step(7, 2305843008676823040, p, 17293822564807737345, 18446744069397807105);
    lemma_pow_mod_step(7, 4611686017353646080, p, 18446744069397807105, 281474976710656);
    lemma_pow_mod_step(7, 9223372034707292160, p, 281474976710656, 18446744069414584320);
    lemma_pow_mod_step(7, 18446744069414584320, p, 18446744069414584320, 1);
}

/// Square-and-multiply evaluation of `7^6148914689804861440` mod `P`.
#[verifier::spinoff_prover]
#[verifier::rlimit(50)]
proof fn lemma_certificate_third()
    ensures
        pow_mod(7, 6148914689804861440, 18446744069414584321) == 18446744065119617025,
{
    let p: nat = 18446744069414584321;
    assert(pow_mod(7, 0, p) == 1);
    lemma_pow_mod_step(7, 1, p, 1, 7);
    lemma_pow_mod_step(7, 2, p, 7, 49);
    lemma_pow_mod_step(7, 5, p, 49, 16807);
    lemma_pow_mod_step(7, 10, p, 16807, 282475249);
    lemma_pow_mod_step(7, 21, p, 282475249, 558545864083284007);
    lemma_pow_mod_step(7, 42, p, 558545864083284007, 8022122801911579307);
    lemma_pow_mod_step(7, 85, p, 8022122801911579307, 12800950874161730379);
    lemma_pow_mod_step(7, 170, p, 12800950874161730379, 14271156885488964304);
    lemma_pow_mod_step(7, 341, p, 14271156885488964304, 9587782661304029968);
    lemma_pow_mod_step(7, 682, p, 9587782661304029968, 10276868313419320864);
    lemma_pow_mod_step(7, 1365, p, 10276868313419320864, 15061306595140985043);
    lemma_pow_mod_step(7, 2730, p, 15061306595140985043, 10087193495066827832);
    lemma_pow_mod_step(7, 5461, p, 10087193495066827832, 12984983231508602376);
    lemma_pow_mod_step(7, 10922, p, 12984983231508602376, 1362657970957379548);
    lemma_pow_mod_step(7, 21845, p, 1362657970957379548, 11834541208736377360);
    lemma_pow_mod_step(7, 43690, p, 11834541208736377360, 15486580570079272365);
    lemma_pow_mod_step(7, 87381, p, 15486580570079272365, 2195267778297645936);
    lemma_pow_mod_step(7, 174762, p, 2195267778297645936, 12545318111885672966);
    lemma_pow_mod_step(7, 349525, p, 12545318111885672966, 3239519442280833256);
    lemma_pow_mod_step(7, 699050, p, 3239519442280833256, 11109814195885452171);
    lemma_pow_mod_step(7, 1398101, p, 11109814195885452171, 4804669246163822745);
    lemma_pow_mod_step(7, 2796202, p, 4804669246163822745, 438903447396483212);
    lemma_pow_mod_step(7, 5592405, p, 438903447396483212, 5017700972839514350);
    lemma_pow_mod_step(7, 11184810, p, 5017700972839514350, 7499557959359525151);
    lemma_pow_mod_step(7, 22369621, p, 7499557959359525151, 8616883547669016587);
    lemma_pow_mod_step(7, 44739242, p, 8616883547669016587, 458110968676413213);
    lemma_pow_mod_step(7, 89478485, p, 458110968676413213, 11751894947584113056);
    lemma_pow_mod_step(7, 178956970, p, 11751894947584113056, 525895266577965633);
    lemma_pow_mod_step(7, 357913941, p, 525895266577965633, 3177182820897284811);
    lemma_pow_mod_step(7, 715827882, p, 3177182820897284811, 7964267603545906836);
    lemma_pow_mod_step(7, 1431655765, p, 7964267603545906836, 14159254819154955796);
    lemma_pow_mod_step(7, 2863311530, p, 14159254819154955796, 998724450546658713);
    lemma_pow_mod_step(7, 5726623060, p, 998724450546658713, 1811047956385014016);
    lemma_pow_mod_step(7, 11453246120, p, 1811047956385014016, 2957134717709447844);
    lemma_pow_mod_step(7, 22906492240, p, 2957134717709447844, 8418656202527058970);
    lemma_pow_mod_step(7, 45812984480, p, 8418656202527058970, 9344165103595421707);
    lemma_pow_mod_step(7, 91625968960, p, 9344165103595421707, 12398472707942400981);
    lemma_pow_mod_step(7, 183251937920, p, 12398472707942400981, 10977358340789161543);
    lemma_pow_mod_step(7, 366503875840, p, 10977358340789161543, 14519574879452399500);
    lemma_pow_mod_step(7, 733007751680, p, 14519574879452399500, 3056692624244734627);
    lemma_pow_mod_step(7, 1466015503360, p, 3056692624244734627, 17973258314804772181);
    lemma_pow_mod_step(7, 2932031006720, p, 17973258314804772181, 15462695660743809749);
    lemma_pow_mod_step(7, 5864062013440, p, 15462695660743809749, 18046908317468628738);
    lemma_pow_mod_step(7, 11728124026880, p, 18046908317468628738, 9144605907772536802);
    lemma_pow_mod_step(7, 23456248053760, p, 9144605907772536802, 8796482344486648840);
    lemma_pow_mod_step(7, 46912496107520, p, 8796482344486648840, 3596945015050375886);
    lemma_pow_mod_step(7, 93824992215040, p, 3596945015050375886, 4201997653601256896);
    lemma_pow_mod_step(7, 187649984430080, p, 4201997653601256896, 6905479200839918232);
    lemma_pow_mod_step(7, 375299968860160, p, 6905479200839918232, 1725491680989254570);
    lemma_pow_mod_step(7, 750599937720320, p, 1725491680989254570, 12370230134295797906);
    lemma_pow_mod_step(7, 1501199875440640, p, 12370230134295797906, 3734230229149707555);
    lemma_pow_mod_step(7, 3002399750881280, p, 3734230229149707555, 16496341184493220914);
    lemma_pow_mod_step(7, 6004799501762560, p, 16496341184493220914, 15331777707844533717);
    lemma_pow_mod_step(7, 12009599003525120, p, 15331777707844533717, 11895029263313522992);
    lemma_pow_mod_step(7, 24019198007050240, p, 11895029263313522992, 11373273867503537004);
    lemma_pow_mod_step(7, 48038396014100480, p, 11373273867503537004, 13835058050987180033);
    lemma_pow_mod_step(7, 96076792028200960, p, 13835058050987180033, 35184372080640);
    lemma_pow_mod_step(7, 192153584056401920, p, 35184372080640, 18158513693262872577);
    lemma_pow_mod_step(7, 384307168112803840, p, 18158513693262872577, 18446744069413535745);
    lemma_pow_mod_step(7, 768614336225607680, p, 18446744069413535745, 1099511627776);
    lemma_pow_mod_step(7, 1537228672451215360, p, 1099511627776, 281474976645120);
    lemma_pow_mod_step(7, 3074457344902430720, p, 281474976645120, 18446744065119617026);
    lemma_pow_mod_step(7, 6148914689804861440, p, 18446744065119617026, 18446744065119617025);
}

/// Square-and-multiply evaluation of `7^3689348813882916864` mod `P`.
#[verifier::spinoff_prover]
#[verifier::rlimit(50)]
proof fn lemma_certificate_fifth()
    ensures
        pow_mod(7, 3689348813882916864, 18446744069414584321) == 1373043270956696022,
{
    let p: nat = 18446744069414584321;
    assert(pow_mod(7, 0, p) == 1);
    lemma_pow_mod_step(7, 1, p, 1, 7);
    lemma_pow_mod_step(7, 3, p, 7, 343);
    lemma_pow_mod_step(7, 6, p, 343, 117649);
    lemma_pow_mod_step(7, 12, p, 117649, 13841287201);
    lemma_pow_mod_step(7, 25, p, 13841287201, 12903046666114829695);
    lemma_pow_mod_step(7, 51, p, 12903046666114829695, 11221315429317299127);
    lemma_pow_mod_step(7, 102, p, 11221315429317299127, 3745031562215636174);
    lemma_pow_mod_step(7, 204, p, 3745031562215636174, 14721374862152863140);
    lemma_pow_mod_step(7, 409, p, 14721374862152863140, 4722125031313448055);
    lemma_pow_mod_step(7, 819, p, 4722125031313448055, 13185163832710852318);
    lemma_pow_mod_step(7, 1638, p, 13185163832710852318, 2814030611640221029);
    lemma_pow_mod_step(7, 3276, p, 2814030611640221029, 15305242945550478579);
    lemma_pow_mod_step(7, 6553, p, 15305242945550478579, 4055957887005023019);
    lemma_pow_mod_step(7, 13107, p, 4055957887005023019, 15895862450598400473);
    lemma_pow_mod_step(7, 26214, p, 15895862450598400473, 15907429390595540903);
    lemma_pow_mod_step(7, 52428, p, 15907429390595540903, 9571849187322067488);
    lemma_pow_mod_step(7, 104857, p, 9571849187322067488, 13342646475897591308);
    lemma_pow_mod_step(7, 209715, p, 13342646475897591308, 11968414678554910634);
    lemma_pow_mod_step(7, 419430, p, 11968414678554910634, 9815939365277946145);
    lemma_pow_mod_step(7, 838860, p, 9815939365277946145, 15620185229717233314);
    lemma_pow_mod_step(7, 1677721, p, 15620185229717233314, 531677932165793774);
    lemma_pow_mod_step(7, 3355443, p, 531677932165793774, 5959305040220178296);
    lemma_pow_mod_step(7, 6710886, p, 5959305040220178296, 6422988881738978288);
    lemma_pow_mod_step(7, 13421772, p, 6422988881738978288, 6417963550187649822);
    lemma_pow_mod_step(7, 26843545, p, 6417963550187649822, 7536491442022418664);
    lemma_pow_mod_step(7, 53687091, p, 7536491442022418664, 6156600053163182347);
    lemma_pow_mod_step(7, 107374182, p, 6156600053163182347, 774671493430776042);
    lemma_pow_mod_step(7, 214748364, p, 774671493430776042, 5396215078887381364);
    lemma_pow_mod_step(7, 429496729, p, 5396215078887381364, 15314337471363908198);
    lemma_pow_mod_step(7, 858993459, p, 15314337471363908198, 3662027161463226824);
    lemma_pow_mod_step(7, 1717986918, p, 3662027161463226824, 11820361339200135398);
    lemma_pow_mod_step(7, 3435973836, p, 11820361339200135398, 10563623981652513853);
    lemma_pow_mod_step(7, 6871947672, p, 10563623981652513853, 11556889392494533434);
    lemma_pow_mod_step(7, 13743895344, p, 11556889392494533434, 5123117391711505057);
    lemma_pow_mod_step(7, 27487790688, p, 5123117391711505057, 18163573378392062736);
    lemma_pow_mod_step(7, 54975581376, p, 18163573378392062736, 17372647198866510400);
    lemma_pow_mod_step(7, 109951162752, p, 17372647198866510400, 1220884775256242639);
    lemma_pow_mod_step(7, 219902325504, p, 1220884775256242639, 1436240010618898855);
    lemma_pow_mod_step(7, 439804651008, p, 1436240010618898855, 968157462317130011);
    lemma_pow_mod_step(7, 879609302016, p, 968157462317130011, 993397133647309316);
    lemma_pow_mod_step(7, 1759218604032, p, 993397133647309316, 14359758886168776598);
    lemma_pow_mod_step(7, 3518437208064, p, 14359758886168776598, 11469785989846425790);
    lemma_pow_mod_step(7, 7036874416128, p, 11469785989846425790, 7202858824453247222);
    lemma_pow_mod_step(7, 14073748832256, p, 7202858824453247222, 8980223327998268287);
    lemma_pow_mod_step(7, 28147497664512, p, 8980223327998268287, 2898061628613144896);
    lemma_pow_mod_step(7, 56294995329024, p, 2898061628613144896, 5148563552100513047);
    lemma_pow_mod_step(7, 112589990658048, p, 5148563552100513047, 10405746850183322052);
    lemma_pow_mod_step(7, 225179981316096, p, 10405746850183322052, 8376609452955824527);
    lemma_pow_mod_step(7, 450359962632192, p, 8376609452955824527, 17819501121686609562);
    lemma_pow_mod_step(7, 900719925264384, p, 17819501121686609562, 12701195747762323519);
    lemma_pow_mod_step(7, 1801439850528768, p, 12701195747762323519, 16093963071722629223);
    lemma_pow_mod_step(7, 3602879701057536, p, 16093963071722629223, 18098504255140688579);
    lemma_pow_mod_step(7, 7205759402115072, p, 18098504255140688579, 3705545293506004500);
    lemma_pow_mod_step(7, 14411518804230144, p, 3705545293506004500, 12143967077249500439);
    lemma_pow_mod_step(7, 28823037608460288, p, 12143967077249500439, 8898934198923663040);
    lemma_pow_mod_step(7, 57646075216920576, p, 8898934198923663040, 14017153681711143730);
    lemma_pow_mod_step(7, 115292150433841152, p, 14017153681711143730, 13369903252519103517);
    lemma_pow_mod_step(7, 230584300867682304, p, 13369903252519103517, 2271703332821311793);
    lemma_pow_mod_step(7, 461168601735364608, p, 2271703332821311793, 14026992134716723275);
    lemma_pow_mod_step(7, 922337203470729216, p, 14026992134716723275, 2281812832982421726);
    lemma_pow_mod_step(7, 1844674406941458432, p, 2281812832982421726, 2625919085333925275);
    lemma_pow_mod_step(7, 3689348813882916864, p, 2625919085333925275, 1373043270956696022);
}

/// Square-and-multiply evaluation of `7^1085102592318504960` mod `P`.
#[verifier::spinoff_prover]
#[verifier::rlimit(50)]
proof fn lemma_certificate_seventeenth()
    ensures
        pow_mod(7, 1085102592318504960, 18446744069414584321) == 16301593560560007290,
{
    let p: nat = 18446744069414584321;
    assert(pow_mod(7, 0, p) == 1);
    lemma_pow_mod_step(7, 1, p, 1, 7);
    lemma_pow_mod_step(7, 3, p, 7, 343);
    lemma_pow_mod_step(7, 7, p, 343, 823543);
    lemma_pow_mod_step(7, 15, p, 823543, 4747561509943);
    lemma_pow_mod_step(7, 30, p, 4747561509943, 1582037354089406189);
    lemma_pow_mod_step(7, 60, p, 1582037354089406189, 6704211459967285318);
    lemma_pow_mod_step(7, 120, p, 6704211459967285318, 12536486945555764682);
    lemma_pow_mod_step(7, 240, p, 12536486945555764682, 8329639379454877396);
    lemma_pow_mod_step(7, 481, p, 8329639379454877396, 12103073565623681441);
    lemma_pow_mod_step(7, 963, p, 12103073565623681441, 14844191010664918863);
    lemma_pow_mod_step(7, 1927, p, 14844191010664918863, 13122058918416823729);
    lemma_pow_mod_step(7, 3855, p, 13122058918416823729, 18391788000542569559);
    lemma_pow_mod_step(7, 7710, p, 18391788000542569559, 5815952681263863745);
    lemma_pow_mod_step(7, 15420, p, 5815952681263863745, 15534263258852221519);
    lemma_pow_mod_step(7, 30840, p, 15534263258852221519, 9621442331152125603);
    lemma_pow_mod_step(7, 61680, p, 9621442331152125603, 13847347385863248794);
    lemma_pow_mod_step(7, 123361, p, 13847347385863248794, 9759263770000967494);
    lemma_pow_mod_step(7, 246723, p, 9759263770000967494, 8617703953199623826);
    lemma_pow_mod_step(7, 493447, p, 8617703953199623826, 18341993165004160224);
    lemma_pow_mod_step(7, 986895, p, 18341993165004160224, 16325541388042428380);
    lemma_pow_mod_step(7, 1973790, p, 16325541388042428380, 87681681590930466);
    lemma_pow_mod_step(7, 3947580, p, 87681681590930466, 1247600097974775228);
    lemma_pow_mod_step(7, 7895160, p, 1247600097974775228, 263672500424845310);
    lemma_pow_mod_step(7, 15790320, p, 263672500424845310, 14075661776324224620);
    lemma_pow_mod_step(7, 31580641, p, 14075661776324224620, 7684278052474903173);
    lemma_pow_mod_step(7, 63161283, p, 7684278052474903173, 7708761456973364157);
    lemma_pow_mod_step(7, 126322567, p, 7708761456973364157, 69940930452546681);
    lemma_pow_mod_step(7, 252645135, p, 69940930452546681, 16357725396938484569);
    lemma_pow_mod_step(7, 505290270, p, 16357725396938484569, 9635924811972810304);
    lemma_pow_mod_step(7, 1010580540, p, 9635924811972810304, 17792655913659759447);
    lemma_pow_mod_step(7, 2021161080, p, 17792655913659759447, 757864979510442991);
    lemma_pow_mod_step(7, 4042322160, p, 757864979510442991, 5359388630104522475);
    lemma_pow_mod_step(7, 8084644320, p, 5359388630104522475, 16844089689671372755);
    lemma_pow_mod_step(7, 16169288640, p, 16844089689671372755, 3416859319420511225);
    lemma_pow_mod_step(7, 32338577280, p, 3416859319420511225, 13225002848613916298);
    lemma_pow_mod_step(7, 64677154560, p, 13225002848613916298, 3046446182183887513);
    lemma_pow_mod_step(7, 129354309120, p, 3046446182183887513, 8471950025145571556);
    lemma_pow_mod_step(7, 258708618240, p, 8471950025145571556, 14240312891968862088);
    lemma_pow_mod_step(7, 517417236480, p, 14240312891968862088, 14284159170854690980);
    lemma_pow_mod_step(7, 1034834472960, p, 14284159170854690980, 2140736107784648890);
    lemma_pow_mod_step(7, 2069668945920, p, 2140736107784648890, 720221585272617730);
    lemma_pow_mod_step(7, 4139337891840, p, 720221585272617730, 14933742682021830494);
    lemma_pow_mod_step(7, 8278675783680, p, 14933742682021830494, 16866753830962059859);
    lemma_pow_mod_step(7, 16557351567360, p, 16866753830962059859, 4185523320037657098);
    lemma_pow_mod_step(7, 33114703134720, p, 4185523320037657098, 17086191566025186696);
    lemma_pow_mod_step(7, 66229406269440, p, 17086191566025186696, 1098680059505421076);
    lemma_pow_mod_step(7, 132458812538880, p, 1098680059505421076, 16940429312545755789);
    lemma_pow_mod_step(7, 264917625077760, p, 16940429312545755789, 16945016486212160087);
    lemma_pow_mod_step(7, 529835250155520, p, 16945016486212160087, 18171560771947831624);
    lemma_pow_mod_step(7, 1059670500311040, p, 18171560771947831624, 14884189242943664099);
    lemma_pow_mod_step(7, 2119341000622080, p, 14884189242943664099, 7182983899389742773);
    lemma_pow_mod_step(7, 4238682001244160, p, 7182983899389742773, 7794706010606133772);
    lemma_pow_mod_step(7, 8477364002488320, p, 7794706010606133772, 5944394147430185930);
    lemma_pow_mod_step(7, 16954728004976640, p, 5944394147430185930, 11638363544692747458);
    lemma_pow_mod_step(7, 33909456009953280, p, 11638363544692747458, 8942909788274506390);
    lemma_pow_mod_step(7, 67818912019906560, p, 8942909788274506390, 10254463118692560346);
    lemma_pow_mod_step(7, 135637824039813120, p, 10254463118692560346, 6509392022269312871);
    lemma_pow_mod_step(7, 271275648079626240, p, 6509392022269312871, 3060481852759670200);
    lemma_pow_mod_step(7, 542551296159252480, p, 3060481852759670200, 9492362781570530732);
    lemma_pow_mod_step(7, 1085102592318504960, p, 9492362781570530732, 16301593560560007290);
}

/// Square-and-multiply evaluation of `7^71777214277877760` mod `P`.
#[verifier::spinoff_prover]
#[verifier::rlimit(50)]
proof fn lemma_certificate_part_257()
    ensures
        pow_mod(7, 71777214277877760, 18446744069414584321) == 995085315851368103,
{
    let p: nat = 18446744069414584321;
    assert(pow_mod(7, 0, p) == 1);
    lemma_pow_mod_step(7, 1, p, 1, 7);
    lemma_pow_mod_step(7, 3, p, 7, 343);
    lemma_pow_mod_step(7, 7, p, 343, 823543);
    lemma_pow_mod_step(7, 15, p, 823543, 4747561509943);
    lemma_pow_mod_step(7, 31, p, 4747561509943, 11074261478625843323);
    lemma_pow_mod_step(7, 63, p, 11074261478625843323, 12148266161370408270);
    lemma_pow_mod_step(7, 127, p, 12148266161370408270, 7007601668316978083);
    lemma_pow_mod_step(7, 255, p, 7007601668316978083, 8125271997680889877);
    lemma_pow_mod_step(7, 510, p, 8125271997680889877, 10915923311382173605);
    lemma_pow_mod_step(7, 1020, p, 10915923311382173605, 8682737361258234340);
    lemma_pow_mod_step(7, 2040, p, 8682737361258234340, 13168992710278412212);
    lemma_pow_mod_step(7, 4080, p, 13168992710278412212, 3615243740316660512);
    lemma_pow_mod_step(7, 8160, p, 3615243740316660512, 9701552052102210316);
    lemma_pow_mod_step(7, 16320, p, 9701552052102210316, 12082995573853045936);
    lemma_pow_mod_step(7, 32640, p, 12082995573853045936, 2592469405483382171);
    lemma_pow_mod_step(7, 65280, p, 2592469405483382171, 8929377406043347353);
    lemma_pow_mod_step(7, 130561, p, 8929377406043347353, 13230650959860397101);
    lemma_pow_mod_step(7, 261123, p, 13230650959860397101, 4567519111026823348);
    lemma_pow_mod_step(7, 522247, p, 4567519111026823348, 14039453651739780561);
    lemma_pow_mod_step(7, 1044495, p, 14039453651739780561, 9849600182067894019);
    lemma_pow_mod_step(7, 2088991, p, 9849600182067894019, 294188574756026472);
    lemma_pow_mod_step(7, 4177983, p, 294188574756026472, 13396756356721479597);
    lemma_pow_mod_step(7, 8355967, p, 13396756356721479597, 227377812062300433);
    lemma_pow_mod_step(7, 16711935, p, 227377812062300433, 3277408507376532532);
    lemma_pow_mod_step(7, 33423870, p, 3277408507376532532, 10187910960120918295);
    lemma_pow_mod_step(7, 66847740, p, 10187910960120918295, 1234511965033452377);
    lemma_pow_mod_step(7, 133695480, p, 1234511965033452377, 15363200638052948867);
    lemma_pow_mod_step(7, 267390960, p, 15363200638052948867, 1236027695563809108);
    lemma_pow_mod_step(7, 534781920, p, 1236027695563809108, 12002353154524589429);
    lemma_pow_mod_step(7, 1069563840, p, 12002353154524589429, 14027517171084490203);
    lemma_pow_mod_step(7, 2139127680, p, 14027517171084490203, 2711851439569513933);
    lemma_pow_mod_step(7, 4278255360, p, 2711851439569513933, 80652374890911913);
    lemma_pow_mod_step(7, 8556510720, p, 80652374890911913, 5283607704788425345);
    lemma_pow_mod_step(7, 17113021440, p, 5283607704788425345, 15514810852250684057);
    lemma_pow_mod_step(7, 34226042880, p, 15514810852250684057, 13397417830393806946);
    lemma_pow_mod_step(7, 68452085760, p, 13397417830393806946, 16359729400225625612);
    lemma_pow_mod_step(7, 136904171520, p, 16359729400225625612, 8019533974815212444);
    lemma_pow_mod_step(7, 273808343040, p, 8019533974815212444, 9655755660440986855);
    lemma_pow_mod_step(7, 547616686080, p, 9655755660440986855, 3604536941271117731);
    lemma_pow_mod_step(7, 1095233372160, p, 3604536941271117731, 17307879323250707139);
    lemma_pow_mod_step(7, 2190466744320, p, 17307879323250707139, 16869139653157226251);
    lemma_pow_mod_step(7, 4380933488640, p, 16869139653157226251, 6953284473670099805);
    lemma_pow_mod_step(7, 8761866977280, p, 6953284473670099805, 18224581395058808609);
    lemma_pow_mod_step(7, 17523733954560, p, 18224581395058808609, 12317229062629230801);
    lemma_pow_mod_step(7, 35047467909120, p, 12317229062629230801, 8521080430804482018);
    lemma_pow_mod_step(7, 70094935818240, p, 8521080430804482018, 1553296775282575040);
    lemma_pow_mod_step(7, 140189871636480, p, 1553296775282575040, 13200482976866298980);
    lemma_pow_mod_step(7, 280379743272960, p, 13200482976866298980, 14925891398157497804);
    lemma_pow_mod_step(7, 560759486545920, p, 14925891398157497804, 15678887058344505597);
    lemma_pow_mod_step(7, 1121518973091840, p, 15678887058344505597, 14658776698600081839);
    lemma_pow_mod_step(7, 2243037946183680, p, 14658776698600081839, 16565152875265738852);
    lemma_pow_mod_step(7, 4486075892367360, p, 16565152875265738852, 5984943436188102888);
    lemma_pow_mod_step(7, 8972151784734720, p, 5984943436188102888, 14921717924877542342);
    lemma_pow_mod_step(7, 17944303569469440, p, 14921717924877542342, 1654982787239893223);
    lemma_pow_mod_step(7, 35888607138938880, p, 1654982787239893223, 18353445258623017512);
    lemma_pow_mod_step(7, 71777214277877760, p, 18353445258623017512, 995085315851368103);
}

/// Square-and-multiply evaluation of `7^281470681743360` mod `P`.
#[verifier::spinoff_prover]
#[verifier::rlimit(50)]
proof fn lemma_certificate_part_65537()
    ensures
        pow_mod(7, 281470681743360, 18446744069414584321) == 8478886009461009681,
{
    let p: nat = 18446744069414584321;
    assert(pow_mod(7, 0, p) == 1);
    lemma_pow_mod_step(7, 1, p, 1, 7);
    lemma_pow_mod_step(7, 3, p, 7, 343);
    lemma_pow_mod_step(7, 7, p, 343, 823543);
    lemma_pow_mod_step(7, 15, p, 823543, 4747561509943);
    lemma_pow_mod_step(7, 31, p, 4747561509943, 11074261478625843323);
    lemma_pow_mod_step(7, 63, p, 11074261478625843323, 12148266161370408270);
    lemma_pow_mod_step(7, 127, p, 12148266161370408270, 7007601668316978083);
    lemma_pow_mod_step(7, 255, p, 7007601668316978083, 8125271997680889877);
    lemma_pow_mod_step(7, 511, p, 8125271997680889877, 2624486902016877951);
    lemma_pow_mod_step(7, 1023, p, 2624486902016877951, 8253119735826302939);
    lemma_pow_mod_step(7, 2047, p, 8253119735826302939, 3543566522599720475);
    lemma_pow_mod_step(7, 4095, p, 3543566522599720475, 11981551684735969599);
    lemma_pow_mod_step(7, 8191, p, 11981551684735969599, 10062120588441922115);
    lemma_pow_mod_step(7, 16383, p, 10062120588441922115, 10485806445487905393);
    lemma_pow_mod_step(7, 32767, p, 10485806445487905393, 4139485063330164956);
    lemma_pow_mod_step(7, 65535, p, 4139485063330164956, 12134830135347446949);
    lemma_pow_mod_step(7, 131070, p, 12134830135347446949, 618113109518621269);
    lemma_pow_mod_step(7, 262140, p, 618113109518621269, 10057574059836717585);
    lemma_pow_mod_step(7, 524280, p, 10057574059836717585, 11436575600859740313);
    lemma_pow_mod_step(7, 1048560, p, 11436575600859740313, 2460531272136303351);
    lemma_pow_mod_step(7, 2097120, p, 2460531272136303351, 5287351674330089703);
    lemma_pow_mod_step(7, 4194240, p, 5287351674330089703, 2729558173611838869);
    lemma_pow_mod_step(7, 8388480, p, 2729558173611838869, 5809869834850305452);
    lemma_pow_mod_step(7, 16776960, p, 5809869834850305452, 4380238239217790048);
    lemma_pow_mod_step(7, 33553920, p, 4380238239217790048, 10313688370767105378);
    lemma_pow_mod_step(7, 67107840, p, 10313688370767105378, 1116132233887293652);
    lemma_pow_mod_step(7, 134215680, p, 1116132233887293652, 8201916556687100419);
    lemma_pow_mod_step(7, 268431360, p, 8201916556687100419, 9569002298025400893);
    lemma_pow_mod_step(7, 536862720, p, 9569002298025400893, 3860342023949954178);
    lemma_pow_mod_step(7, 1073725440, p, 3860342023949954178, 2518827640559301834);
    lemma_pow_mod_step(7, 2147450880, p, 2518827640559301834, 4408381949760333744);
    lemma_pow_mod_step(7, 4294901760, p, 4408381949760333744, 5214785644524920463);
    lemma_pow_mod_step(7, 8589803520, p, 5214785644524920463, 16359673064222316581);
    lemma_pow_mod_step(7, 17179607040, p, 16359673064222316581, 7241809583754189836);
    lemma_pow_mod_step(7, 34359214080, p, 7241809583754189836, 12639803007403283714);
    lemma_pow_mod_step(7, 68718428160, p, 12639803007403283714, 12324653451830581392);
    lemma_pow_mod_step(7, 137436856320, p, 12324653451830581392, 3248773168955372845);
    lemma_pow_mod_step(7, 274873712640, p, 3248773168955372845, 11622038198969340988);
    lemma_pow_mod_step(7, 549747425280, p, 11622038198969340988, 13512512774593501075);
    lemma_pow_mod_step(7, 1099494850560, p, 13512512774593501075, 7628844061018354094);
    lemma_pow_mod_step(7, 2198989701120, p, 7628844061018354094, 10832619856158324041);
    lemma_pow_mod_step(7, 4397979402240, p, 10832619856158324041, 6522121551337605094);
    lemma_pow_mod_step(7, 8795958804480, p, 6522121551337605094, 4924686556790045269);
    lemma_pow_mod_step(7, 17591917608960, p, 4924686556790045269, 8233486007872169718);
    lemma_pow_mod_step(7, 35183835217920, p, 8233486007872169718, 6861851865518519982);
    lemma_pow_mod_step(7, 70367670435840, p, 6861851865518519982, 16452032933035937120);
    lemma_pow_mod_step(7, 140735340871680, p, 16452032933035937120, 7318164361609642178);
    lemma_pow_mod_step(7, 281470681743360, p, 7318164361609642178, 8478886009461009681);
}

/// One step of square-and-multiply on concrete values.
proof fn lemma_pow_mod_step(b: nat, e: nat, m: nat, h: nat, v: nat)
    requires
        e > 0,
        pow_mod(b, e / 2, m) == h,
        v == (if e % 2 == 1 {
            (((h * h) % m) * b) % m
        } else {
            (h * h) % m
        }),
    ensures
        pow_mod(b, e, m) == v,
{
}


/// `n` is prime: greater than 1, with no divisor strictly between 1 and itself.
pub open spec fn is_prime(n: nat) -> bool {
    n > 1 && forall|d: nat| 1 < d < n ==> #[trigger] (n % d) != 0
}

/// The odd prime factors of the group order, and 2, are prime.
proof fn lemma_small_primes()
    ensures
        is_prime(2),
        is_prime(3),
        is_prime(5),
        is_prime(17),
        is_prime(257),
        is_prime(65537),
{
    assert(forall|d: u32| 1 < d < 65537 ==> #[trigger] (65537u32 % d) != 0) by (bit_vector);
    assert(forall|d: u32| 1 < d < 257 ==> #[trigger] (257u32 % d) != 0) by (bit_vector);
    assert(forall|d: u32| 1 < d < 17 ==> #[trigger] (17u32 % d) != 0) by (bit_vector);
    assert(forall|d: u32| 1 < d < 5 ==> #[trigger] (5u32 % d) != 0) by (bit_vector);
    assert(forall|d: u32| 1 < d < 3 ==> #[trigger] (3u32 % d) != 0) by (bit_vector);
    assert forall|d: nat| 1 < d < 65537 implies #[trigger] (65537nat % d) != 0 by {
        assert(65537u32 % (d as u32) != 0);
    }
    assert forall|d: nat| 1 < d < 257 implies #[trigger] (257nat % d) != 0 by {
        assert(257u32 % (d as u32) != 0);
    }
    assert forall|d: nat| 1 < d < 17 implies #[trigger] (17nat % d) != 0 by {
        assert(17u32 % (d as u32) != 0);
    }
    assert forall|d: nat| 1 < d < 5 implies #[trigger] (5nat % d) != 0 by {
        assert(5u32 % (d as u32) != 0);
    }
    assert forall|d: nat| 1 < d < 3 implies #[trigger] (3nat % d) != 0 by {
        assert(3u32 % (d as u32) != 0);
    }
}


/// Euclid's lemma, for `a` already reduced: a prime dividing `a * b`, with `0 < a < p`,
/// divides `b`. By descent on `a`: `p % a` is a smaller multiplier with the same property.
proof fn lemma_euclid_reduced(p: nat, a: nat, b: nat)
    requires
        is_prime(p),
        0 < a < p,
        (a * b) % p == 0,
    ensures
        b % p == 0,
    decreases a,
{
    if a == 1 {
        lemma_mul_basics(b as int);
    } else {
        let q = p / a;
        let r = p % a;
        lemma_fundamental_div_mod(p as int, a as int);
        assert(r > 0) by {
            if r == 0 {
                assert(p % a != 0);
            }
        }
        lemma_fundamental_div_mod((a * b) as int, p as int);
        let k = (a * b) / p;
        assert(r * b == p * (b - q * k)) by (nonlinear_arith)
            requires
                p == a * q + r,
                a * b == p * k + 0,
        ;
        lemma_mod_multiples_basic(b - q * k, p as int);
        lemma_mul_is_commutative(p as int, b - q * k);
        lemma_euclid_reduced(p, r, b);
    }
}

/// Euclid's lemma: a prime dividing a product divides one of its factors.
proof fn lemma_euclid(p: nat, a: nat, b: nat)
    requires
        is_prime(p),
        (a * b) % p == 0,
    ensures
        a % p == 0 || b % p == 0,
{
    if a % p != 0 {
        lemma_mul_mod_noop_left(a as int, b as int, p as int);
        lemma_euclid_reduced(p, a % p, b);
    }
}

/// If `m` divides `q * r` and the prime `q` does not divide `m`, then `m` divides `r`.
proof fn lemma_strip_prime(q: nat, m: nat, r: nat)
    requires
        is_prime(q),
        m > 0,
        (q * r) % m == 0,
        m % q != 0,
    ensures
        r % m == 0,
{
    lemma_fundamental_div_mod((q * r) as int, m as int);
    let t = (q * r) / m;
    assert(m * t == q * r);
    lemma_mod_multiples_basic(r as int, q as int);
    lemma_mul_is_commutative(q as int, r as int);
    lemma_euclid(q, m, t);
    lemma_fundamental_div_mod(t as int, q as int);
    let s = t / q;
    assert(r == m * s) by (nonlinear_arith)
        requires
            m * t == q * r,
            t == q * s + 0,
            q > 1,
    ;
    lemma_mod_multiples_basic(s as int, m as int);
    lemma_mul_is_commutative(m as int, s as int);
}

/// An odd `m` dividing `2^k * f` divides `f`.
proof fn lemma_strip_twos(m: nat, k: nat, f: nat)
    requires
        m > 0,
        m % 2 != 0,
        (pow2(k) * f) % m == 0,
    ensures
        f % m == 0,
    decreases k,
{
    lemma_small_primes();
    if k > 0 {
        lemma_pow2_unfold(k);
        let rest = pow2((k - 1) as nat) * f;
        assert(pow2(k) * f == 2 * rest) by (nonlinear_arith)
            requires
                pow2(k) == 2 * pow2((k - 1) as nat),
                rest == pow2((k - 1) as nat) * f,
        ;
        lemma_strip_prime(2, m, rest);
        lemma_strip_twos(m, (k - 1) as nat, f);
    } else {
        lemma2_to64();
        lemma_mul_basics(f as int);
    }
}

/// A divisor of the group order that no prime factor of the group order divides is 1.
proof fn lemma_divisor_of_order(m: nat)
    requires
        m > 0,
        group_order() % m == 0,
        m % 2 != 0,
        m % 3 != 0,
        m % 5 != 0,
        m % 17 != 0,
        m % 257 != 0,
        m % 65537 != 0,
    ensures
        m == 1,
{
    lemma_small_primes();
    lemma2_to64();
    assert(group_order() == pow2(32) * 4294967295);
    lemma_strip_twos(m, 32, 4294967295);
    lemma_strip_prime(3, m, 1431655765);
    lemma_strip_prime(5, m, 286331153);
    lemma_strip_prime(17, m, 16843009);
    lemma_strip_prime(257, m, 65537);
    lemma_strip_prime(65537, m, 1);
    if m > 1 {
        lemma_small_mod(1, m);
    }
}


/// Greatest common divisor, by Euclid's algorithm.
pub open spec fn gcd(a: nat, b: nat) -> nat
    decreases b,
{
    if b == 0 {
        a
    } else {
        gcd(b, a % b)
    }
}

/// For `a > 0`, `gcd(a, b)` is positive and divides both `a` and `b`.
proof fn lemma_gcd_divides(a: nat, b: nat)
    requires
        a > 0,
    ensures
        gcd(a, b) > 0,
        a % gcd(a, b) == 0,
        b % gcd(a, b) == 0,
    decreases b,
{
    if b == 0 {
        lemma_mod_self_0(a as int);
        lemma_small_mod(0, a);
    } else {
        lemma_gcd_divides(b, a % b);
        let g = gcd(b, a % b);
        lemma_fundamental_div_mod(a as int, b as int);
        lemma_fundamental_div_mod(b as int, g as int);
        lemma_fundamental_div_mod((a % b) as int, g as int);
        let x = b / g;
        let y = (a % b) / g;
        let q = a / b;
        assert(a == g * (x * q + y)) by (nonlinear_arith)
            requires
                a == b * q + a % b,
                b == g * x + 0,
                a % b == g * y + 0,
        ;
        lemma_mod_multiples_basic((x * q + y) as int, g as int);
        lemma_mul_is_commutative(g as int, (x * q + y) as int);
    }
}

/// `x^e ≡ 1 (mod m)` whenever `x ≡ 1 (mod m)`.
proof fn lemma_pow_of_one_mod(x: int, e: nat, m: int)
    requires
        m > 1,
        x % m == 1,
    ensures
        pow(x, e) % m == 1,
{
    lemma_pow_mod_noop(x, e, m);
    lemma1_pow(e);
    lemma_small_mod(1, m as nat);
}

/// If `g^a ≡ 1` and `g^b ≡ 1` then `g^gcd(a, b) ≡ 1` (mod m).
proof fn lemma_pow_gcd(g: int, a: nat, b: nat, m: int)
    requires
        m > 1,
        pow(g, a) % m == 1,
        pow(g, b) % m == 1,
    ensures
        pow(g, gcd(a, b)) % m == 1,
    decreases b,
{
    if b > 0 {
        let q = a / b;
        let r = a % b;
        lemma_fundamental_div_mod(a as int, b as int);
        lemma_mul_nonnegative(b as int, q as int);
        assert(a == b * q + r);
        lemma_pow_adds(g, b * q, r);
        lemma_pow_multiplies(g, b, q);
        lemma_pow_of_one_mod(pow(g, b), q, m);
        let x = pow(pow(g, b), q);
        let y = pow(g, r);
        lemma_mul_mod_noop_left(x, y, m);
        lemma_mul_basics(y);
        lemma_mod_twice(y, m);
        lemma_pow_gcd(g, b, r, m);
    }
}

/// `7^(N/q) ≡ 1` for a prime factor `q` of `N / d`, once `7^d ≡ 1`.
proof fn lemma_power_at_cofactor(q: nat, d: nat, m: nat)
    requires
        q > 0,
        group_order() == d * m,
        m % q == 0,
        pow(generator(), d) % (prime() as int) == 1,
    ensures
        pow(generator(), group_order() / q) % (prime() as int) == 1,
{
    lemma_fundamental_div_mod(m as int, q as int);
    let k = m / q;
    assert(group_order() == q * (d * k)) by (nonlinear_arith)
        requires
            group_order() == d * m,
            m == q * k + 0,
    ;
    lemma_div_multiples_vanish((d * k) as int, q as int);
    lemma_pow_multiplies(generator(), d, k);
    lemma_pow_of_one_mod(pow(generator(), d), k, prime() as int);
}

/// 7 has order exactly `N`: no smaller positive power of it is 1.
pub proof fn lemma_generator_order(k: nat)
    requires
        0 < k < group_order(),
    ensures
        pow(generator(), k) % (prime() as int) != 1,
{
    if pow(generator(), k) % (prime() as int) == 1 {
        lemma_generator_certificate();
        let n = group_order();
        lemma_pow_gcd(generator(), n, k, prime() as int);
        lemma_gcd_divides(n, k);
        let d = gcd(n, k);
        lemma_fundamental_div_mod(n as int, d as int);
        lemma_fundamental_div_mod(k as int, d as int);
        let m = n / d;
        assert(n == d * m);
        assert(d <= k) by (nonlinear_arith)
            requires
                k == d * (k / d) + 0,
                k > 0,
                d > 0,
        ;
        assert(m != 1 && m != 0) by {
            lemma_mul_basics(d as int);
        }
        lemma_mod_multiples_basic(d as int, m as int);
        lemma_mul_is_commutative(d as int, m as int);
        if m % 2 == 0 {
            lemma_power_at_cofactor(2, d, m);
        } else if m % 3 == 0 {
            lemma_power_at_cofactor(3, d, m);
        } else if m % 5 == 0 {
            lemma_power_at_cofactor(5, d, m);
        } else if m % 17 == 0 {
            lemma_power_at_cofactor(17, d, m);
        } else if m % 257 == 0 {
            lemma_power_at_cofactor(257, d, m);
        } else if m % 65537 == 0 {
            lemma_power_at_cofactor(65537, d, m);
        } else {
            assert(m > 0);
            lemma_divisor_of_order(m);
        }
    }
}


/// The residue `7^i mod P`.
pub open spec fn power_residue(i: int) -> int {
    pow(generator(), i as nat) % (prime() as int)
}

/// For `0 <= i < N`: `7^i * 7^(N-i) ≡ 1`, so `7^i` is not 0 mod P, and
/// `7^j * 7^(N-i) ≡ 7^(j-i)` for `i <= j`.
proof fn lemma_power_times_complement(i: nat, j: nat)
    requires
        i <= j,
        i < group_order(),
    ensures
        (pow(generator(), i) * pow(generator(), (group_order() - i) as nat)) % (prime() as int) == 1,
        (pow(generator(), j) * pow(generator(), (group_order() - i) as nat)) % (prime() as int)
            == pow(generator(), (j - i) as nat) % (prime() as int),
{
    let g = generator();
    let n = group_order();
    let c = (n - i) as nat;
    lemma_generator_certificate();
    lemma_pow_adds(g, i, c);
    assert(j + c == n + (j - i));
    lemma_pow_adds(g, j, c);
    lemma_pow_adds(g, n, (j - i) as nat);
    let y = pow(g, (j - i) as nat);
    lemma_mul_mod_noop_left(pow(g, n), y, prime() as int);
    lemma_mul_basics(y);
}

/// The residue `7^i` is not 0 (for `0 <= i < N`).
proof fn lemma_power_residue_nonzero(i: nat)
    requires
        i < group_order(),
    ensures
        power_residue(i as int) != 0,
{
    let g = generator();
    let c = (group_order() - i) as nat;
    lemma_power_times_complement(i, i);
    let x = pow(g, c);
    lemma_mul_mod_noop_left(pow(g, i), x, prime() as int);
    if power_residue(i as int) == 0 {
        lemma_mul_basics(x);
        lemma_small_mod(0, prime());
    }
}

/// The residues `7^i` for `0 <= i < N` are pairwise distinct.
proof fn lemma_power_residues_distinct(i: nat, j: nat)
    requires
        i < j < group_order(),
    ensures
        power_residue(i as int) != power_residue(j as int),
{
    let g = generator();
    let p = prime() as int;
    let c = (group_order() - i) as nat;
    lemma_power_times_complement(i, j);
    let x = pow(g, c);
    lemma_mul_mod_noop_left(pow(g, i), x, p);
    lemma_mul_mod_noop_left(pow(g, j), x, p);
    if power_residue(i as int) == power_residue(j as int) {
        lemma_generator_order((j - i) as nat);
    }
}

/// Every non-zero residue is a power of 7: the `N` distinct powers fill `[1, P)`.
pub proof fn lemma_residue_is_power(a: int)
    requires
        1 <= a < prime(),
    ensures
        exists|i: int| 0 <= i < group_order() && power_residue(i) == a,
{
    let dom = set_int_range(0, group_order() as int);
    let target = set_int_range(1, prime() as int);
    let f = |i: int| power_residue(i);
    let img = dom.map(f);
    lemma_int_range(0, group_order() as int);
    lemma_int_range(1, prime() as int);
    assert(injective_on(f, dom)) by {
        assert forall|x1: int, x2: int|
            dom.contains(x1) && dom.contains(x2) && #[trigger] f(x1) == #[trigger] f(x2) implies x1
            == x2 by {
            if x1 < x2 {
                lemma_power_residues_distinct(x1 as nat, x2 as nat);
            } else if x2 < x1 {
                lemma_power_residues_distinct(x2 as nat, x1 as nat);
            }
        }
    }
    lemma_map_size(dom, img, f);
    assert(img.subset_of(target)) by {
        assert forall|y: int| img.contains(y) implies target.contains(y) by {
            let x = choose|x: int| dom.contains(x) && y == f(x);
            lemma_mod_bound(pow(generator(), x as nat), prime() as int);
            lemma_power_residue_nonzero(x as nat);
        }
    }
    lemma_subset_equality(img, target);
    assert(target.contains(a));
    assert(img.contains(a));
}

/// Fermat's little theorem for the Goldilocks prime: `a^(P-1) ≡ 1` for every `a` not
/// divisible by `P`.
pub proof fn lemma_fermat(a: int)
    requires
        a % (prime() as int) != 0,
    ensures
        pow(a, group_order()) % (prime() as int) == 1,
{
    let p = prime() as int;
    let n = group_order();
    let r = a % p;
    lemma_mod_bound(a, p);
    lemma_residue_is_power(r);
    let i = choose|i: int| 0 <= i < n && power_residue(i) == r;
    let gi = pow(generator(), i as nat);
    lemma_pow_mod_noop(a, n, p);
    lemma_pow_mod_noop(gi, n, p);
    lemma_pow_multiplies(generator(), i as nat, n);
    lemma_pow_multiplies(generator(), n, i as nat);
    lemma_mul_is_commutative(i, n as int);
    lemma_generator_certificate();
    lemma_pow_of_one_mod(pow(generator(), n), i as nat, p);
}

} // verus!
