//! The gear table and the rolling hash built on it.
//!
//! The table holds one 64-bit word for each byte value. The hash of a run of
//! bytes is obtained by folding `h <- (h << 1) + GEAR[b]` over the run, with
//! 64-bit wrap-around, so that a byte stops influencing the hash once it is
//! 64 positions behind.
use vstd::prelude::*;

verus! {

/// One pseudo-random 64-bit word per byte value.
pub const GEAR: [u64; 256] = [
    0x6e82fa87775a43d7, 0x2aa5b283c52c6ea2, 0x669f9f9b9675ccfa, 0x32d4c99f422384ae,
    0x93beafcd2f1b9478, 0x63a2f92b8ee1fd61, 0xdce27cdb41a580db, 0x4c197d085b61df9d,
    0xc3a3fd8e99adf5ab, 0x94b7ba76ec364aa9, 0xa8c80abc93b04979, 0x1c6fe372b66b1b33,
    0xb38f547aea6708e0, 0x237773b91fb96a53, 0xd205fe35f23f3f93, 0x2a54227467466fb8,
    0xbc87c6df4e5ed50b, 0x74f31e5587df5c07, 0x33fe114bb92f53dc, 0x1cde4e42fe0d2c22,
    0x1efd04e336675d4f, 0x9f78eadfaa27f9b2, 0xba1b20c69341793b, 0x88e8745a9046d39c,
    0x1b020eb09f1ecc04, 0xbca3a34621b98d99, 0xde13a3000049fc81, 0xca31cdb094dc545d,
    0xe8dbc059f187e2c4, 0xcf57622b04e3f784, 0xf0427fce63792ad5, 0xfecef5386cc06159,
    0xc380d3349bbd13ab, 0xbecd588a3f0fd3bc, 0x1da56bafefc41a56, 0x4a774a7812c1159b,
    0x5ed27fae4600ecc6, 0xd2aea38baf19552a, 0xc12f7d8b2a940369, 0xb2e559268274caca,
    0x37d86a282d60997d, 0x75782997d9c4abd6, 0x4f0f9ae69fcab4e6, 0xd7645cecacfe9cd7,
    0x9d141fd6ae2b9c66, 0xf0993e861a1d9e81, 0x3f985b78e58eee59, 0xebc4ef5657a79b38,
    0x02044638ac22a40c, 0x1994d371b32df60d, 0xa41c04ef00f2fd67, 0xb59a87243a8b9825,
    0x50fa791eec2d2b02, 0x7bc4f110b476537c, 0x1b83978bf96dd026, 0xe517263005bb8105,
    0xc37845bdead0ea30, 0x70a558cd7984c581, 0x4f02c011b0e708d6, 0x223025fe5ffc1a11,
    0x16e5df037dea1c3b, 0x2d7641d1422a9295, 0xe09d90cb07c125e4, 0x10bb06878a9bae06,
    0x4eb86889a32c1f81, 0xeda2a3b5908efcfd, 0x602cbaf241b4bc48, 0x84df7fc981d83cc7,
    0xbd02a3ea57fc5252, 0x9bdeff9afa114c3e, 0x19f5b2594d55c591, 0x093a236caa530ecf,
    0x7c8ca4d62863c102, 0x1ae19fd226678e03, 0xbd87a1bf6feb9f3b, 0x8d4bd2f0eb628539,
    0x1ab25d9722599045, 0x9151e84412d4d430, 0xab85e8f859ce045d, 0xf299ebde4af36509,
    0xa4ac86f704dec7cd, 0xebeda17a8bd0554b, 0x41d2ed053e4207e8, 0x4a06bad1bd4c2c03,
    0x20c98107ddc55891, 0x090e69fa3efe7f1b, 0xdf09a41481b78779, 0x9a3e41aa73ea68e8,
    0xff5dc7e76d6986ca, 0x315fcf62e68b20ac, 0x797ea3e0a1d19769, 0x7c064c3bb8fa6449,
    0x5b482e1d126af925, 0xaada0534ed18977e, 0x82dd75055f1e0dec, 0x842f6159a1bac499,
    0x4acdb52206b83dce, 0x70101fc4c4d33594, 0x59d007ddd02492a4, 0xaf26d527ff43177b,
    0x2a35f5142ec10651, 0x00354aafce2817f5, 0xdde64c22a0316258, 0xe6864b8f31f5e696,
    0x6bc8f3b7f271943c, 0x5ec36737129ba196, 0x8fe17accecf85e18, 0x152ed1a8a2ca0406,
    0xd772619928ff33ed, 0x06e78c4bbb2eb98b, 0x4a01068560538820, 0xe46d1c80d41d1833,
    0x14485e6616fa4d54, 0x017b53f19910bda1, 0xba535440113944ad, 0xc414ad0edabd2103,
    0xc8ed80272a870b89, 0x60745d5c74ae8268, 0x0e3d05b8cc64dd80, 0x21afe4f17e04c523,
    0x13badbb42de9b47e, 0x53258b82b8ef8d2e, 0x5a9bab30b582f0b8, 0x88167d3b7f5082a5,
    0xa52b3636d29b2e41, 0x4e5dcd53e5862cbf, 0xcb06b59276072af3, 0x8c38891e04f3a085,
    0xf9cadc75064c8cd6, 0xabb551ede9a33520, 0x6f1bef2925fc5223, 0x4ad7886fd261fd44,
    0x6bb00b8247c64c2d, 0xe607dfd100cde303, 0xb433dd47b245f6e8, 0x233352797dbe8bc2,
    0xebaa4a4a47d5cf1d, 0xc7f7e5a3481ef348, 0x487cfb5af3dee339, 0xae12052fe194e4ba,
    0x79f62e75e9ee7ef9, 0xd2f0775eaf616020, 0x4fd906fde4167033, 0x77649c49407bc8b6,
    0xa46799acfdba928c, 0xe01c6add0e090327, 0xe4efe9bdc4542be0, 0x2b1248c68a01f274,
    0x1aa453770abb511a, 0x6f856d9eafaf380b, 0xbc0161807848586a, 0xd3cedfce9d07d244,
    0x00498c52eace2ee2, 0x867d0a679c8baaf2, 0xcc1eb7dcebfa9384, 0xae3f300993c5655d,
    0x145fcdbd4b71f99e, 0xe2760e4fda432a97, 0x7975e4e059536fda, 0xd3e4862f7dc4ce11,
    0x4ef691981db81f57, 0x13830d03d3cd975d, 0x12a84a446cb35cf6, 0xdaaeb03248af5ac3,
    0x196e265e0a0de24e, 0x88e89da827a27137, 0xbc21cd2dfa489b57, 0xa89b2741c9fb64d5,
    0x7147dc7cedca60bd, 0x6742b3a855532494, 0x6d70d1727af92957, 0x66493da71ad96720,
    0xcddfd9eaaaa17cd8, 0x4091ea3a1e0b9719, 0x5361ac1d2bf97788, 0x3ac2d937ec20afc6,
    0x2b38123cefcba327, 0x7955e02f7fafc79f, 0x42c36529276105b2, 0xa24646ab1d88ea65,
    0x2a7acccc21599c44, 0x6943c0fd84b80da6, 0xcc1fa7a418b6809b, 0x8655343aa3983fa0,
    0x86d9566b843078e0, 0x8e8c0d18e1f3e0e8, 0x915f4f5046c13523, 0x78120bdf78184ca3,
    0xe96fe40aab1d5bc7, 0x7bf7d8c963a4c39b, 0x6a3e192f524ef432, 0x38eed489a2992f4e,
    0x9489b5f3d8168089, 0x0567731f05ebe585, 0xa7f385b40b845730, 0x769b1aabc4edf939,
    0x601a43feab623153, 0x35a0f56f92a96bf8, 0x160afe570236247f, 0x0a591e8f95d4ee1c,
    0x858f1b58fe3aa812, 0x54f5ff4e353bc448, 0x293585e50a4d7a8a, 0x279ee6a50f093bb2,
    0xee1b21e438cfd9fc, 0x87b33e2364e14c19, 0xdb76cc5c5d9c5348, 0x13db89e7ce374794,
    0x8bdc62034d7b46d4, 0x172f1977221a0946, 0x5c8498fd130c62ab, 0x99178a719d6db26a,
    0x662e5797200f6444, 0x354634f34873a1c8, 0xf847ef8e8eecf117, 0x9b99df22cacd9c9c,
    0xa3118b2d1d4aaa6d, 0xee9fb1016eb59d69, 0x33c576b419efb7ce, 0x8ec517db1d0582a4,
    0x71b582d24835a2df, 0xca03b1141579e87c, 0x372f5fa47fd58536, 0x3a24044e6159c428,
    0x3a8d8858653fdf82, 0x5c363a896bb7d0e8, 0x3ead686b44453c91, 0x13fec66583ef213f,
    0x83ca5a2d6afa1b46, 0x99a77a928eabc51d, 0x44da2ec3e1a50a3d, 0xa050901d012e66dc,
    0x49273b77685c9e7c, 0xb96e769ccfa70e91, 0x8b2c700a333af227, 0xddc0def90bb3be0c,
    0x92144f10f8f2008c, 0xffabfb31074f90ed, 0x43fc877ed885f09d, 0xf93467b847138b35,
    0x9463266f2618d520, 0x948df57d51f6e9f0, 0xc999ee28392a3b29, 0xd760ccecc1f457fb,
    0xf46b76cb47ab57aa, 0x160a50a45980dcea, 0x4e2237441659ed34, 0x34d6881f875b7825,
    0x8085366850ae31f2, 0x5ff7ecded509a0e5, 0x27185760ba855745, 0x4c86fb470ae4aecd,
    0x170f461f4d625a8c, 0x42d8d55cabb91131, 0xda7a9eadb83a4979, 0x6d95e6251836b350,
];

/// Every word of [`GEAR`] shifted left by one bit, kept beside it so that the
/// two-bytes-at-a-time scan saves a shift on the first byte of each pair.
pub const GEAR_LS: [u64; 256] = [
    0xdd05f50eeeb487ae, 0x554b65078a58dd44, 0xcd3f3f372ceb99f4, 0x65a9933e8447095c,
    0x277d5f9a5e3728f0, 0xc745f2571dc3fac2, 0xb9c4f9b6834b01b6, 0x9832fa10b6c3bf3a,
    0x8747fb1d335beb56, 0x296f74edd86c9552, 0x51901579276092f2, 0x38dfc6e56cd63666,
    0x671ea8f5d4ce11c0, 0x46eee7723f72d4a6, 0xa40bfc6be47e7f26, 0x54a844e8ce8cdf70,
    0x790f8dbe9cbdaa16, 0xe9e63cab0fbeb80e, 0x67fc2297725ea7b8, 0x39bc9c85fc1a5844,
    0x3dfa09c66cceba9e, 0x3ef1d5bf544ff364, 0x7436418d2682f276, 0x11d0e8b5208da738,
    0x36041d613e3d9808, 0x7947468c43731b32, 0xbc2746000093f902, 0x94639b6129b8a8ba,
    0xd1b780b3e30fc588, 0x9eaec45609c7ef08, 0xe084ff9cc6f255aa, 0xfd9dea70d980c2b2,
    0x8701a669377a2756, 0x7d9ab1147e1fa778, 0x3b4ad75fdf8834ac, 0x94ee94f025822b36,
    0xbda4ff5c8c01d98c, 0xa55d47175e32aa54, 0x825efb16552806d2, 0x65cab24d04e99594,
    0x6fb0d4505ac132fa, 0xeaf0532fb38957ac, 0x9e1f35cd3f9569cc, 0xaec8b9d959fd39ae,
    0x3a283fad5c5738cc, 0xe1327d0c343b3d02, 0x7f30b6f1cb1ddcb2, 0xd789deacaf4f3670,
    0x04088c7158454818, 0x3329a6e3665bec1a, 0x483809de01e5face, 0x6b350e487517304a,
    0xa1f4f23dd85a5604, 0xf789e22168eca6f8, 0x37072f17f2dba04c, 0xca2e4c600b77020a,
    0x86f08b7bd5a1d460, 0xe14ab19af3098b02, 0x9e05802361ce11ac, 0x44604bfcbff83422,
    0x2dcbbe06fbd43876, 0x5aec83a28455252a, 0xc13b21960f824bc8, 0x21760d0f15375c0c,
    0x9d70d11346583f02, 0xdb45476b211df9fa, 0xc05975e483697890, 0x09beff9303b0798e,
    0x7a0547d4aff8a4a4, 0x37bdff35f422987c, 0x33eb64b29aab8b22, 0x127446d954a61d9e,
    0xf91949ac50c78204, 0x35c33fa44ccf1c06, 0x7b0f437edfd73e76, 0x1a97a5e1d6c50a72,
    0x3564bb2e44b3208a, 0x22a3d08825a9a860, 0x570bd1f0b39c08ba, 0xe533d7bc95e6ca12,
    0x49590dee09bd8f9a, 0xd7db42f517a0aa96, 0x83a5da0a7c840fd0, 0x940d75a37a985806,
    0x4193020fbb8ab122, 0x121cd3f47dfcfe36, 0xbe134829036f0ef2, 0x347c8354e7d4d1d0,
    0xfebb8fcedad30d94, 0x62bf9ec5cd164158, 0xf2fd47c143a32ed2, 0xf80c987771f4c892,
    0xb6905c3a24d5f24a, 0x55b40a69da312efc, 0x05baea0abe3c1bd8, 0x085ec2b343758932,
    0x959b6a440d707b9c, 0xe0203f8989a66b28, 0xb3a00fbba0492548, 0x5e4daa4ffe862ef6,
    0x546bea285d820ca2, 0x006a955f9c502fea, 0xbbcc98454062c4b0, 0xcd0c971e63ebcd2c,
    0xd791e76fe4e32878, 0xbd86ce6e2537432c, 0x1fc2f599d9f0bc30, 0x2a5da3514594080c,
    0xaee4c33251fe67da, 0x0dcf1897765d7316, 0x94020d0ac0a71040, 0xc8da3901a83a3066,
    0x2890bccc2df49aa8, 0x02f6a7e332217b42, 0x74a6a8802272895a, 0x88295a1db57a4206,
    0x91db004e550e1712, 0xc0e8bab8e95d04d0, 0x1c7a0b7198c9bb00, 0x435fc9e2fc098a46,
    0x2775b7685bd368fc, 0xa64b170571df1a5c, 0xb53756616b05e170, 0x102cfa76fea1054a,
    0x4a566c6da5365c82, 0x9cbb9aa7cb0c597e, 0x960d6b24ec0e55e6, 0x1871123c09e7410a,
    0xf395b8ea0c9919ac, 0x576aa3dbd3466a40, 0xde37de524bf8a446, 0x95af10dfa4c3fa88,
    0xd76017048f8c985a, 0xcc0fbfa2019bc606, 0x6867ba8f648bedd0, 0x4666a4f2fb7d1784,
    0xd75494948fab9e3a, 0x8fefcb46903de690, 0x90f9f6b5e7bdc672, 0x5c240a5fc329c974,
    0xf3ec5cebd3dcfdf2, 0xa5e0eebd5ec2c040, 0x9fb20dfbc82ce066, 0xeec9389280f7916c,
    0x48cf3359fb752518, 0xc038d5ba1c12064e, 0xc9dfd37b88a857c0, 0x5624918d1403e4e8,
    0x3548a6ee1576a234, 0xdf0adb3d5f5e7016, 0x7802c300f090b0d4, 0xa79dbf9d3a0fa488,
    0x009318a5d59c5dc4, 0x0cfa14cf391755e4, 0x983d6fb9d7f52708, 0x5c7e6013278acaba,
    0x28bf9b7a96e3f33c, 0xc4ec1c9fb486552e, 0xf2ebc9c0b2a6dfb4, 0xa7c90c5efb899c22,
    0x9ded23303b703eae, 0x27061a07a79b2eba, 0x25509488d966b9ec, 0xb55d6064915eb586,
    0x32dc4cbc141bc49c, 0x11d13b504f44e26e, 0x78439a5bf49136ae, 0x51364e8393f6c9aa,
    0xe28fb8f9db94c17a, 0xce856750aaa64928, 0xdae1a2e4f5f252ae, 0xcc927b4e35b2ce40,
    0x9bbfb3d55542f9b0, 0x8123d4743c172e32, 0xa6c3583a57f2ef10, 0x7585b26fd8415f8c,
    0x56702479df97464e, 0xf2abc05eff5f8f3e, 0x8586ca524ec20b64, 0x448c8d563b11d4ca,
    0x54f5999842b33888, 0xd28781fb09701b4c, 0x983f4f48316d0136, 0x0caa687547307f40,
    0x0db2acd70860f1c0, 0x1d181a31c3e7c1d0, 0x22be9ea08d826a46, 0xf02417bef0309946,
    0xd2dfc815563ab78e, 0xf7efb192c7498736, 0xd47c325ea49de864, 0x71dda91345325e9c,
    0x29136be7b02d0112, 0x0acee63e0bd7cb0a, 0x4fe70b681708ae60, 0xed36355789dbf272,
    0xc03487fd56c462a6, 0x6b41eadf2552d7f0, 0x2c15fcae046c48fe, 0x14b23d1f2ba9dc38,
    0x0b1e36b1fc755024, 0xa9ebfe9c6a778890, 0x526b0bca149af514, 0x4f3dcd4a1e127764,
    0xdc3643c8719fb3f8, 0x0f667c46c9c29832, 0xb6ed98b8bb38a690, 0x27b713cf9c6e8f28,
    0x17b8c4069af68da8, 0x2e5e32ee4434128c, 0xb90931fa2618c556, 0x322f14e33adb64d4,
    0xcc5caf2e401ec888, 0x6a8c69e690e74390, 0xf08fdf1d1dd9e22e, 0x3733be45959b3938,
    0x4623165a3a9554da, 0xdd3f6202dd6b3ad2, 0x678aed6833df6f9c, 0x1d8a2fb63a0b0548,
    0xe36b05a4906b45be, 0x940762282af3d0f8, 0x6e5ebf48ffab0a6c, 0x7448089cc2b38850,
    0x751b10b0ca7fbf04, 0xb86c7512d76fa1d0, 0x7d5ad0d6888a7922, 0x27fd8ccb07de427e,
    0x0794b45ad5f4368c, 0x334ef5251d578a3a, 0x89b45d87c34a147a, 0x40a1203a025ccdb8,
    0x924e76eed0b93cf8, 0x72dced399f4e1d22, 0x1658e0146675e44e, 0xbb81bdf217677c18,
    0x24289e21f1e40118, 0xff57f6620e9f21da, 0x87f90efdb10be13a, 0xf268cf708e27166a,
    0x28c64cde4c31aa40, 0x291beafaa3edd3e0, 0x9333dc5072547652, 0xaec199d983e8aff6,
    0xe8d6ed968f56af54, 0x2c14a148b301b9d4, 0x9c446e882cb3da68, 0x69ad103f0eb6f04a,
    0x010a6cd0a15c63e4, 0xbfefd9bdaa1341ca, 0x4e30aec1750aae8a, 0x990df68e15c95d9a,
    0x2e1e8c3e9ac4b518, 0x85b1aab957722262, 0xb4f53d5b707492f2, 0xdb2bcc4a306d66a0,
];

/// The gear word of a byte.
pub open spec fn gear(b: u8) -> u64 {
    GEAR[b as int]
}

/// One step of the rolling hash: shift the state left by one bit and add the
/// gear word of the byte, wrapping at 64 bits.
pub open spec fn gear_step(h: u64, b: u8) -> u64 {
    (h << 1).wrapping_add(gear(b))
}

/// The hash state reached from `h` after the bytes `s[from..to)` have been
/// absorbed in order.
pub open spec fn gear_fold(h: u64, s: Seq<u8>, from: int, to: int) -> u64
    decreases to - from,
{
    if to <= from {
        h
    } else {
        gear_step(gear_fold(h, s, from, to - 1), s[to - 1])
    }
}

/// A fold may be taken from its first byte: absorb `s[from]`, then fold the
/// rest.
pub proof fn lemma_fold_front(h: u64, s: Seq<u8>, from: int, to: int)
    requires
        from < to,
    ensures
        gear_fold(h, s, from, to) == gear_fold(gear_step(h, s[from]), s, from + 1, to),
    decreases to - from,
{
    if from + 1 < to {
        lemma_fold_front(h, s, from, to - 1);
    } else {
        assert(gear_fold(h, s, from, from) == h);
        assert(gear_fold(gear_step(h, s[from]), s, from + 1, from + 1) == gear_step(h, s[from]));
    }
}

/// The second table is the first one shifted left by one bit.
pub proof fn lemma_shifted_table(b: u8)
    ensures
        GEAR_LS[b as int] == gear(b) << 1,
{
    let w = gear(b);
    assert(GEAR_LS[b as int] == (2 * w) % 0x1_0000_0000_0000_0000);
    assert(w << 1 == (2 * w) % 0x1_0000_0000_0000_0000) by (bit_vector);
}

/// Absorbing the first byte of a pair into a state that is kept shifted left
/// by one more bit: `(h << 2) + (GEAR[b] << 1)` is the hash after `b`, shifted
/// left by one.
pub proof fn lemma_shifted_step(h: u64, b: u8)
    ensures
        (h << 2).wrapping_add(gear(b) << 1) == gear_step(h, b) << 1,
{
    let g = gear(b);
    assert((h << 2).wrapping_add(g << 1) == ((h << 1).wrapping_add(g)) << 1) by (bit_vector);
}

/// Absorbs the first byte of a pair into the hash `h`: yields the hash after
/// `b`, shifted left by one bit.
#[inline]
pub fn roll_first(h: u64, b: u8) -> (held: u64)
    ensures
        held == gear_step(h, b) << 1,
{
    proof {
        lemma_shifted_table(b);
        lemma_shifted_step(h, b);
    }
    (h << 2).wrapping_add(GEAR_LS[b as usize])
}

/// Absorbs the second byte of a pair into what [`roll_first`] yielded: where
/// `held` is a hash shifted left by one bit, yields the hash after `b`.
#[inline]
pub fn roll_second(held: u64, b: u8) -> (h: u64)
    ensures
        h == held.wrapping_add(gear(b)),
        forall|before: u64| held == before << 1 ==> h == #[trigger] gear_step(before, b),
{
    held.wrapping_add(GEAR[b as usize])
}

} // verus!
