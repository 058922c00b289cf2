//! The C runtime that every generated program carries: string, hashing,
//! file and process helpers, and (outside Windows) socket and epoll helpers.
use vstd::prelude::*;

verus! {

/// The standard headers every generated program includes, and a blank line.
pub const INCLUDES: [&'static str; 9] = [
    "#include <stdint.h>",
    "#include <stdbool.h>",
    "#include <stddef.h>",
    "#include <stdio.h>",
    "#include <string.h>",
    "#include <stdlib.h>",
    "#include <time.h>",
    "#include <locale.h>",
    "",
];

// Helpers that need allocation or libc: string building, hashing, files,
// standard input and time.
pub const RUNTIME_1: [&'static str; 30] = [
    "int __xlang_argc_g = 0;",
    "char** __xlang_argv_g = 0;",
    "char* __xlang_str_concat(const char* a, const char* b) {",
    "    size_t la = strlen(a), lb = strlen(b);",
    "    char* out = (char*)malloc(la + lb + 1);",
    "    memcpy(out, a, la);",
    "    memcpy(out + la, b, lb);",
    "    out[la + lb] = 0;",
    "    return out;",
    "}",
    "char* __xlang_int_to_str(int32_t n) {",
    "    char* buf = (char*)malloc(16);",
    "    snprintf(buf, 16, \"%d\", n);",
    "    return buf;",
    "}",
    "// SHA-256 hash → 64-char hex string. Standard FIPS 180-4 implementation.",
    "char* __xlang_sha256_hex(const char* data) {",
    "    static const uint32_t K[64] = {",
    "        0x428a2f98,0x71374491,0xb5c0fbcf,0xe9b5dba5,0x3956c25b,0x59f111f1,0x923f82a4,0xab1c5ed5,",
    "        0xd807aa98,0x12835b01,0x243185be,0x550c7dc3,0x72be5d74,0x80deb1fe,0x9bdc06a7,0xc19bf174,",
    "        0xe49b69c1,0xefbe4786,0x0fc19dc6,0x240ca1cc,0x2de92c6f,0x4a7484aa,0x5cb0a9dc,0x76f988da,",
    "        0x983e5152,0xa831c66d,0xb00327c8,0xbf597fc7,0xc6e00bf3,0xd5a79147,0x06ca6351,0x14292967,",
    "        0x27b70a85,0x2e1b2138,0x4d2c6dfc,0x53380d13,0x650a7354,0x766a0abb,0x81c2c92e,0x92722c85,",
    "        0xa2bfe8a1,0xa81a664b,0xc24b8b70,0xc76c51a3,0xd192e819,0xd6990624,0xf40e3585,0x106aa070,",
    "        0x19a4c116,0x1e376c08,0x2748774c,0x34b0bcb5,0x391c0cb3,0x4ed8aa4a,0x5b9cca4f,0x682e6ff3,",
    "        0x748f82ee,0x78a5636f,0x84c87814,0x8cc70208,0x90befffa,0xa4506ceb,0xbef9a3f7,0xc67178f2",
    "    };",
    "    uint32_t h[8] = {0x6a09e667,0xbb67ae85,0x3c6ef372,0xa54ff53a,0x510e527f,0x9b05688c,0x1f83d9ab,0x5be0cd19};",
    "    size_t dlen = strlen(data);",
    "    size_t padded = ((dlen + 9 + 63) / 64) * 64;",
];

pub const RUNTIME_2: [&'static str; 30] = [
    "    uint8_t* msg = (uint8_t*)calloc(padded, 1);",
    "    memcpy(msg, data, dlen);",
    "    msg[dlen] = 0x80;",
    "    uint64_t bits = (uint64_t)dlen * 8;",
    "    for (int i = 0; i < 8; i++) msg[padded - 1 - i] = (uint8_t)(bits >> (i * 8));",
    "    for (size_t off = 0; off < padded; off += 64) {",
    "        uint32_t w[64];",
    "        for (int i = 0; i < 16; i++) w[i] = ((uint32_t)msg[off+i*4]<<24)|((uint32_t)msg[off+i*4+1]<<16)|((uint32_t)msg[off+i*4+2]<<8)|((uint32_t)msg[off+i*4+3]);",
    "        for (int i = 16; i < 64; i++) {",
    "            uint32_t s0 = ((w[i-15]>>7)|(w[i-15]<<25)) ^ ((w[i-15]>>18)|(w[i-15]<<14)) ^ (w[i-15]>>3);",
    "            uint32_t s1 = ((w[i-2]>>17)|(w[i-2]<<15)) ^ ((w[i-2]>>19)|(w[i-2]<<13)) ^ (w[i-2]>>10);",
    "            w[i] = w[i-16] + s0 + w[i-7] + s1;",
    "        }",
    "        uint32_t a=h[0],b=h[1],c=h[2],d=h[3],e=h[4],f=h[5],g=h[6],hh=h[7];",
    "        for (int i = 0; i < 64; i++) {",
    "            uint32_t S1 = ((e>>6)|(e<<26)) ^ ((e>>11)|(e<<21)) ^ ((e>>25)|(e<<7));",
    "            uint32_t ch = (e & f) ^ (~e & g);",
    "            uint32_t t1 = hh + S1 + ch + K[i] + w[i];",
    "            uint32_t S0 = ((a>>2)|(a<<30)) ^ ((a>>13)|(a<<19)) ^ ((a>>22)|(a<<10));",
    "            uint32_t maj = (a & b) ^ (a & c) ^ (b & c);",
    "            uint32_t t2 = S0 + maj;",
    "            hh=g; g=f; f=e; e=d+t1; d=c; c=b; b=a; a=t1+t2;",
    "        }",
    "        h[0]+=a; h[1]+=b; h[2]+=c; h[3]+=d; h[4]+=e; h[5]+=f; h[6]+=g; h[7]+=hh;",
    "    }",
    "    free(msg);",
    "    char* hex = (char*)malloc(65);",
    "    const char* hc = \"0123456789abcdef\";",
    "    for (int i = 0; i < 8; i++) { hex[i*8]=(char)hc[(h[i]>>28)&15]; hex[i*8+1]=(char)hc[(h[i]>>24)&15]; hex[i*8+2]=(char)hc[(h[i]>>20)&15]; hex[i*8+3]=(char)hc[(h[i]>>16)&15]; hex[i*8+4]=(char)hc[(h[i]>>12)&15]; hex[i*8+5]=(char)hc[(h[i]>>8)&15]; hex[i*8+6]=(char)hc[(h[i]>>4)&15]; hex[i*8+7]=(char)hc[h[i]&15]; }",
    "    hex[64] = 0;",
];

pub const RUNTIME_3: [&'static str; 30] = [
    "    return hex;",
    "}",
    "// SHA-224 hash (FIPS 180-4) — SHA-256 with different IV, truncated to 56 hex chars.",
    "char* __xlang_sha224_hex(const char* data) {",
    "    static const uint32_t K[64] = {",
    "        0x428a2f98,0x71374491,0xb5c0fbcf,0xe9b5dba5,0x3956c25b,0x59f111f1,0x923f82a4,0xab1c5ed5,",
    "        0xd807aa98,0x12835b01,0x243185be,0x550c7dc3,0x72be5d74,0x80deb1fe,0x9bdc06a7,0xc19bf174,",
    "        0xe49b69c1,0xefbe4786,0x0fc19dc6,0x240ca1cc,0x2de92c6f,0x4a7484aa,0x5cb0a9dc,0x76f988da,",
    "        0x983e5152,0xa831c66d,0xb00327c8,0xbf597fc7,0xc6e00bf3,0xd5a79147,0x06ca6351,0x14292967,",
    "        0x27b70a85,0x2e1b2138,0x4d2c6dfc,0x53380d13,0x650a7354,0x766a0abb,0x81c2c92e,0x92722c85,",
    "        0xa2bfe8a1,0xa81a664b,0xc24b8b70,0xc76c51a3,0xd192e819,0xd6990624,0xf40e3585,0x106aa070,",
    "        0x19a4c116,0x1e376c08,0x2748774c,0x34b0bcb5,0x391c0cb3,0x4ed8aa4a,0x5b9cca4f,0x682e6ff3,",
    "        0x748f82ee,0x78a5636f,0x84c87814,0x8cc70208,0x90befffa,0xa4506ceb,0xbef9a3f7,0xc67178f2",
    "    };",
    "    uint32_t h[8]={0xc1059ed8,0x367cd507,0x3070dd17,0xf70e5939,0xffc00b31,0x68581511,0x64f98fa7,0xbefa4fa4};",
    "    size_t dlen=strlen(data),padded=((dlen+9+63)/64)*64;",
    "    uint8_t* msg=(uint8_t*)calloc(padded,1);",
    "    memcpy(msg,data,dlen);",
    "    msg[dlen]=0x80;",
    "    uint64_t bits=(uint64_t)dlen*8;",
    "    for(int i=0;i<8;i++) msg[padded-1-i]=(uint8_t)(bits>>(i*8));",
    "    for(size_t off=0;off<padded;off+=64){",
    "        uint32_t w[64];",
    "        for(int i=0;i<16;i++) w[i]=((uint32_t)msg[off+i*4]<<24)|((uint32_t)msg[off+i*4+1]<<16)|((uint32_t)msg[off+i*4+2]<<8)|((uint32_t)msg[off+i*4+3]);",
    "        for(int i=16;i<64;i++){uint32_t s0=((w[i-15]>>7)|(w[i-15]<<25))^((w[i-15]>>18)|(w[i-15]<<14))^(w[i-15]>>3);uint32_t s1=((w[i-2]>>17)|(w[i-2]<<15))^((w[i-2]>>19)|(w[i-2]<<13))^(w[i-2]>>10);w[i]=w[i-16]+s0+w[i-7]+s1;}",
    "        uint32_t a=h[0],b=h[1],c=h[2],d=h[3],e=h[4],f=h[5],g=h[6],hh=h[7];",
    "        for(int i=0;i<64;i++){uint32_t S1=((e>>6)|(e<<26))^((e>>11)|(e<<21))^((e>>25)|(e<<7));uint32_t ch=(e&f)^(~e&g);uint32_t t1=hh+S1+ch+K[i]+w[i];uint32_t S0=((a>>2)|(a<<30))^((a>>13)|(a<<19))^((a>>22)|(a<<10));uint32_t maj=(a&b)^(a&c)^(b&c);uint32_t t2=S0+maj;hh=g;g=f;f=e;e=d+t1;d=c;c=b;b=a;a=t1+t2;}",
    "        h[0]+=a;h[1]+=b;h[2]+=c;h[3]+=d;h[4]+=e;h[5]+=f;h[6]+=g;h[7]+=hh;",
    "    }",
    "    free(msg);",
];

pub const RUNTIME_4: [&'static str; 30] = [
    "    char* hex=(char*)malloc(57);",
    "    const char* hc=\"0123456789abcdef\";",
    "    for(int i=0;i<7;i++){hex[i*8]=(char)hc[(h[i]>>28)&15];hex[i*8+1]=(char)hc[(h[i]>>24)&15];hex[i*8+2]=(char)hc[(h[i]>>20)&15];hex[i*8+3]=(char)hc[(h[i]>>16)&15];hex[i*8+4]=(char)hc[(h[i]>>12)&15];hex[i*8+5]=(char)hc[(h[i]>>8)&15];hex[i*8+6]=(char)hc[(h[i]>>4)&15];hex[i*8+7]=(char)hc[h[i]&15];}",
    "    hex[56]=0;",
    "    return hex;",
    "}",
    "char* __xlang_pad_int(int32_t n, int32_t width) {",
    "    char* buf = (char*)malloc(32);",
    "    snprintf(buf, 32, \"%*d\", width, n);",
    "    return buf;",
    "}",
    "// SHA-512 hash (FIPS 180-4) → 128-char hex string.",
    "char* __xlang_sha512_hex(const char* data) {",
    "    static const uint64_t K[80]={",
    "        0x428a2f98d728ae22ULL,0x7137449123ef65cdULL,0xb5c0fbcfec4d3b2fULL,0xe9b5dba58189dbbcULL,",
    "        0x3956c25bf348b538ULL,0x59f111f1b605d019ULL,0x923f82a4af194f9bULL,0xab1c5ed5da6d8118ULL,",
    "        0xd807aa98a3030242ULL,0x12835b0145706fbeULL,0x243185be4ee4b28cULL,0x550c7dc3d5ffb4e2ULL,",
    "        0x72be5d74f27b896fULL,0x80deb1fe3b1696b1ULL,0x9bdc06a725c71235ULL,0xc19bf174cf692694ULL,",
    "        0xe49b69c19ef14ad2ULL,0xefbe4786384f25e3ULL,0x0fc19dc68b8cd5b5ULL,0x240ca1cc77ac9c65ULL,",
    "        0x2de92c6f592b0275ULL,0x4a7484aa6ea6e483ULL,0x5cb0a9dcbd41fbd4ULL,0x76f988da831153b5ULL,",
    "        0x983e5152ee66dfabULL,0xa831c66d2db43210ULL,0xb00327c898fb213fULL,0xbf597fc7beef0ee4ULL,",
    "        0xc6e00bf33da88fc2ULL,0xd5a79147930aa725ULL,0x06ca6351e003826fULL,0x142929670a0e6e70ULL,",
    "        0x27b70a8546d22ffcULL,0x2e1b21385c26c926ULL,0x4d2c6dfc5ac42aedULL,0x53380d139d95b3dfULL,",
    "        0x650a73548baf63deULL,0x766a0abb3c77b2a8ULL,0x81c2c92e47edaee6ULL,0x92722c851482353bULL,",
    "        0xa2bfe8a14cf10364ULL,0xa81a664bbc423001ULL,0xc24b8b70d0f89791ULL,0xc76c51a30654be30ULL,",
    "        0xd192e819d6ef5218ULL,0xd69906245565a910ULL,0xf40e35855771202aULL,0x106aa07032bbd1b8ULL,",
    "        0x19a4c116b8d2d0c8ULL,0x1e376c085141ab53ULL,0x2748774cdf8eeb99ULL,0x34b0bcb5e19b48a8ULL,",
    "        0x391c0cb3c5c95a63ULL,0x4ed8aa4ae3418acbULL,0x5b9cca4f7763e373ULL,0x682e6ff3d6b2b8a3ULL,",
    "        0x748f82ee5defb2fcULL,0x78a5636f43172f60ULL,0x84c87814a1f0ab72ULL,0x8cc702081a6439ecULL,",
    "        0x90befffa23631e28ULL,0xa4506cebde82bde9ULL,0xbef9a3f7b2c67915ULL,0xc67178f2e372532bULL,",
];

pub const RUNTIME_5: [&'static str; 30] = [
    "        0xca273eceea26619cULL,0xd186b8c721c0c207ULL,0xeada7dd6cde0eb1eULL,0xf57d4f7fee6ed178ULL,",
    "        0x06f067aa72176fbaULL,0x0a637dc5a2c898a6ULL,0x113f9804bef90daeULL,0x1b710b35131c471bULL,",
    "        0x28db77f523047d84ULL,0x32caab7b40c72493ULL,0x3c9ebe0a15c9bebcULL,0x431d67c49c100d4cULL,",
    "        0x4cc5d4becb3e42b6ULL,0x597f299cfc657e2aULL,0x5fcb6fab3ad6faecULL,0x6c44198c4a475817ULL",
    "    };",
    "    uint64_t h[8]={0x6a09e667f3bcc908ULL,0xbb67ae8584caa73bULL,0x3c6ef372fe94f82bULL,0xa54ff53a5f1d36f1ULL,0x510e527fade682d1ULL,0x9b05688c2b3e6c1fULL,0x1f83d9abfb41bd6bULL,0x5be0cd19137e2179ULL};",
    "    size_t dlen=strlen(data);",
    "    size_t padded=((dlen+17+127)/128)*128;",
    "    uint8_t* msg=(uint8_t*)calloc(padded,1);",
    "    memcpy(msg,data,dlen);",
    "    msg[dlen]=0x80;",
    "    uint64_t bits=(uint64_t)dlen*8;",
    "    for(int i=0;i<8;i++) msg[padded-1-i]=(uint8_t)(bits>>(i*8));",
    "    for(size_t off=0;off<padded;off+=128){",
    "        uint64_t w[80];",
    "        for(int i=0;i<16;i++){size_t b=off+i*8;w[i]=((uint64_t)msg[b]<<56)|((uint64_t)msg[b+1]<<48)|((uint64_t)msg[b+2]<<40)|((uint64_t)msg[b+3]<<32)|((uint64_t)msg[b+4]<<24)|((uint64_t)msg[b+5]<<16)|((uint64_t)msg[b+6]<<8)|((uint64_t)msg[b+7]);}",
    "        for(int i=16;i<80;i++){uint64_t s0=((w[i-15]>>1)|(w[i-15]<<63))^((w[i-15]>>8)|(w[i-15]<<56))^(w[i-15]>>7);uint64_t s1=((w[i-2]>>19)|(w[i-2]<<45))^((w[i-2]>>61)|(w[i-2]<<3))^(w[i-2]>>6);w[i]=w[i-16]+s0+w[i-7]+s1;}",
    "        uint64_t a=h[0],b=h[1],c=h[2],d=h[3],e=h[4],f=h[5],g=h[6],hh=h[7];",
    "        for(int i=0;i<80;i++){",
    "            uint64_t S1=((e>>14)|(e<<50))^((e>>18)|(e<<46))^((e>>41)|(e<<23));",
    "            uint64_t ch=(e&f)^(~e&g);",
    "            uint64_t t1=hh+S1+ch+K[i]+w[i];",
    "            uint64_t S0=((a>>28)|(a<<36))^((a>>34)|(a<<30))^((a>>39)|(a<<25));",
    "            uint64_t maj=(a&b)^(a&c)^(b&c);",
    "            uint64_t t2=S0+maj;",
    "            hh=g;g=f;f=e;e=d+t1;d=c;c=b;b=a;a=t1+t2;",
    "        }",
    "        h[0]+=a;h[1]+=b;h[2]+=c;h[3]+=d;h[4]+=e;h[5]+=f;h[6]+=g;h[7]+=hh;",
    "    }",
    "    free(msg);",
];

pub const RUNTIME_6: [&'static str; 30] = [
    "    char* hex=(char*)malloc(129);",
    "    const char* hc=\"0123456789abcdef\";",
    "    for(int i=0;i<8;i++){for(int j=7;j>=0;j--){hex[i*16+(7-j)*2]=(char)hc[(h[i]>>(j*8+4))&15];hex[i*16+(7-j)*2+1]=(char)hc[(h[i]>>(j*8))&15];}}",
    "    hex[128]=0;",
    "    return hex;",
    "}",
    "// SHA-384 hash (FIPS 180-4) — SHA-512 with different IV, truncated to 96 hex chars.",
    "char* __xlang_sha384_hex(const char* data) {",
    "    static const uint64_t K384[80]={",
    "        0x428a2f98d728ae22ULL,0x7137449123ef65cdULL,0xb5c0fbcfec4d3b2fULL,0xe9b5dba58189dbbcULL,",
    "        0x3956c25bf348b538ULL,0x59f111f1b605d019ULL,0x923f82a4af194f9bULL,0xab1c5ed5da6d8118ULL,",
    "        0xd807aa98a3030242ULL,0x12835b0145706fbeULL,0x243185be4ee4b28cULL,0x550c7dc3d5ffb4e2ULL,",
    "        0x72be5d74f27b896fULL,0x80deb1fe3b1696b1ULL,0x9bdc06a725c71235ULL,0xc19bf174cf692694ULL,",
    "        0xe49b69c19ef14ad2ULL,0xefbe4786384f25e3ULL,0x0fc19dc68b8cd5b5ULL,0x240ca1cc77ac9c65ULL,",
    "        0x2de92c6f592b0275ULL,0x4a7484aa6ea6e483ULL,0x5cb0a9dcbd41fbd4ULL,0x76f988da831153b5ULL,",
    "        0x983e5152ee66dfabULL,0xa831c66d2db43210ULL,0xb00327c898fb213fULL,0xbf597fc7beef0ee4ULL,",
    "        0xc6e00bf33da88fc2ULL,0xd5a79147930aa725ULL,0x06ca6351e003826fULL,0x142929670a0e6e70ULL,",
    "        0x27b70a8546d22ffcULL,0x2e1b21385c26c926ULL,0x4d2c6dfc5ac42aedULL,0x53380d139d95b3dfULL,",
    "        0x650a73548baf63deULL,0x766a0abb3c77b2a8ULL,0x81c2c92e47edaee6ULL,0x92722c851482353bULL,",
    "        0xa2bfe8a14cf10364ULL,0xa81a664bbc423001ULL,0xc24b8b70d0f89791ULL,0xc76c51a30654be30ULL,",
    "        0xd192e819d6ef5218ULL,0xd69906245565a910ULL,0xf40e35855771202aULL,0x106aa07032bbd1b8ULL,",
    "        0x19a4c116b8d2d0c8ULL,0x1e376c085141ab53ULL,0x2748774cdf8eeb99ULL,0x34b0bcb5e19b48a8ULL,",
    "        0x391c0cb3c5c95a63ULL,0x4ed8aa4ae3418acbULL,0x5b9cca4f7763e373ULL,0x682e6ff3d6b2b8a3ULL,",
    "        0x748f82ee5defb2fcULL,0x78a5636f43172f60ULL,0x84c87814a1f0ab72ULL,0x8cc702081a6439ecULL,",
    "        0x90befffa23631e28ULL,0xa4506cebde82bde9ULL,0xbef9a3f7b2c67915ULL,0xc67178f2e372532bULL,",
    "        0xca273eceea26619cULL,0xd186b8c721c0c207ULL,0xeada7dd6cde0eb1eULL,0xf57d4f7fee6ed178ULL,",
    "        0x06f067aa72176fbaULL,0x0a637dc5a2c898a6ULL,0x113f9804bef90daeULL,0x1b710b35131c471bULL,",
    "        0x28db77f523047d84ULL,0x32caab7b40c72493ULL,0x3c9ebe0a15c9bebcULL,0x431d67c49c100d4cULL,",
    "        0x4cc5d4becb3e42b6ULL,0x597f299cfc657e2aULL,0x5fcb6fab3ad6faecULL,0x6c44198c4a475817ULL",
    "    };",
];

pub const RUNTIME_7: [&'static str; 30] = [
    "    uint64_t h[8]={0xcbbb9d5dc1059ed8ULL,0x629a292a367cd507ULL,0x9159015a3070dd17ULL,0x152fecd8f70e5939ULL,0x67332667ffc00b31ULL,0x8eb44a8768581511ULL,0xdb0c2e0d64f98fa7ULL,0x47b5481dbefa4fa4ULL};",
    "    size_t dlen=strlen(data),padded=((dlen+17+127)/128)*128;",
    "    uint8_t* msg=(uint8_t*)calloc(padded,1);",
    "    memcpy(msg,data,dlen);",
    "    msg[dlen]=0x80;",
    "    uint64_t bits=(uint64_t)dlen*8;",
    "    for(int i=0;i<8;i++) msg[padded-1-i]=(uint8_t)(bits>>(i*8));",
    "    for(size_t off=0;off<padded;off+=128){",
    "        uint64_t w[80];",
    "        for(int i=0;i<16;i++){size_t b=off+i*8;w[i]=((uint64_t)msg[b]<<56)|((uint64_t)msg[b+1]<<48)|((uint64_t)msg[b+2]<<40)|((uint64_t)msg[b+3]<<32)|((uint64_t)msg[b+4]<<24)|((uint64_t)msg[b+5]<<16)|((uint64_t)msg[b+6]<<8)|((uint64_t)msg[b+7]);}",
    "        for(int i=16;i<80;i++){uint64_t s0=((w[i-15]>>1)|(w[i-15]<<63))^((w[i-15]>>8)|(w[i-15]<<56))^(w[i-15]>>7);uint64_t s1=((w[i-2]>>19)|(w[i-2]<<45))^((w[i-2]>>61)|(w[i-2]<<3))^(w[i-2]>>6);w[i]=w[i-16]+s0+w[i-7]+s1;}",
    "        uint64_t a=h[0],b=h[1],c=h[2],d=h[3],e=h[4],f=h[5],g=h[6],hh=h[7];",
    "        for(int i=0;i<80;i++){uint64_t S1=((e>>14)|(e<<50))^((e>>18)|(e<<46))^((e>>41)|(e<<23));uint64_t ch=(e&f)^(~e&g);uint64_t t1=hh+S1+ch+K384[i]+w[i];uint64_t S0=((a>>28)|(a<<36))^((a>>34)|(a<<30))^((a>>39)|(a<<25));uint64_t maj=(a&b)^(a&c)^(b&c);uint64_t t2=S0+maj;hh=g;g=f;f=e;e=d+t1;d=c;c=b;b=a;a=t1+t2;}",
    "        h[0]+=a;h[1]+=b;h[2]+=c;h[3]+=d;h[4]+=e;h[5]+=f;h[6]+=g;h[7]+=hh;",
    "    }",
    "    free(msg);",
    "    char* hex=(char*)malloc(97);",
    "    const char* hc=\"0123456789abcdef\";",
    "    for(int i=0;i<6;i++){for(int j=7;j>=0;j--){hex[i*16+(7-j)*2]=(char)hc[(h[i]>>(j*8+4))&15];hex[i*16+(7-j)*2+1]=(char)hc[(h[i]>>(j*8))&15];}}",
    "    hex[96]=0;",
    "    return hex;",
    "}",
    "// SHA-1 hash (FIPS 180-4) → 40-char hex string.",
    "char* __xlang_sha1_hex(const char* data) {",
    "    uint32_t h[5]={0x67452301,0xEFCDAB89,0x98BADCFE,0x10325476,0xC3D2E1F0};",
    "    size_t dlen=strlen(data);",
    "    size_t padded=((dlen+9+63)/64)*64;",
    "    uint8_t* msg=(uint8_t*)calloc(padded,1);",
    "    memcpy(msg,data,dlen);",
    "    msg[dlen]=0x80;",
];

pub const RUNTIME_8: [&'static str; 30] = [
    "    uint64_t bits=(uint64_t)dlen*8;",
    "    for(int i=0;i<8;i++) msg[padded-1-i]=(uint8_t)(bits>>(i*8));",
    "    for(size_t off=0;off<padded;off+=64){",
    "        uint32_t w[80];",
    "        for(int i=0;i<16;i++) w[i]=((uint32_t)msg[off+i*4]<<24)|((uint32_t)msg[off+i*4+1]<<16)|((uint32_t)msg[off+i*4+2]<<8)|((uint32_t)msg[off+i*4+3]);",
    "        for(int i=16;i<80;i++){uint32_t t=w[i-3]^w[i-8]^w[i-14]^w[i-16]; w[i]=(t<<1)|(t>>31);}",
    "        uint32_t a=h[0],b=h[1],c=h[2],d=h[3],e=h[4];",
    "        for(int i=0;i<80;i++){",
    "            uint32_t f,k;",
    "            if(i<20){f=(b&c)|(~b&d);k=0x5A827999;}",
    "            else if(i<40){f=b^c^d;k=0x6ED9EBA1;}",
    "            else if(i<60){f=(b&c)|(b&d)|(c&d);k=0x8F1BBCDC;}",
    "            else{f=b^c^d;k=0xCA62C1D6;}",
    "            uint32_t temp=((a<<5)|(a>>27))+f+e+k+w[i];",
    "            e=d;d=c;c=((b<<30)|(b>>2));b=a;a=temp;",
    "        }",
    "        h[0]+=a;h[1]+=b;h[2]+=c;h[3]+=d;h[4]+=e;",
    "    }",
    "    free(msg);",
    "    char* hex=(char*)malloc(41);",
    "    const char* hc=\"0123456789abcdef\";",
    "    for(int i=0;i<5;i++){hex[i*8]=(char)hc[(h[i]>>28)&15];hex[i*8+1]=(char)hc[(h[i]>>24)&15];hex[i*8+2]=(char)hc[(h[i]>>20)&15];hex[i*8+3]=(char)hc[(h[i]>>16)&15];hex[i*8+4]=(char)hc[(h[i]>>12)&15];hex[i*8+5]=(char)hc[(h[i]>>8)&15];hex[i*8+6]=(char)hc[(h[i]>>4)&15];hex[i*8+7]=(char)hc[h[i]&15];}",
    "    hex[40]=0;",
    "    return hex;",
    "}",
    "// MD5 hash (RFC 1321) → 32-char hex string.",
    "char* __xlang_md5_hex(const char* data) {",
    "    static const uint32_t T[64] = {",
    "        0xd76aa478,0xe8c7b756,0x242070db,0xc1bdceee,0xf57c0faf,0x4787c62a,0xa8304613,0xfd469501,",
    "        0x698098d8,0x8b44f7af,0xffff5bb1,0x895cd7be,0x6b901122,0xfd987193,0xa679438e,0x49b40821,",
];

pub const RUNTIME_9: [&'static str; 30] = [
    "        0xf61e2562,0xc040b340,0x265e5a51,0xe9b6c7aa,0xd62f105d,0x02441453,0xd8a1e681,0xe7d3fbc8,",
    "        0x21e1cde6,0xc33707d6,0xf4d50d87,0x455a14ed,0xa9e3e905,0xfcefa3f8,0x676f02d9,0x8d2a4c8a,",
    "        0xfffa3942,0x8771f681,0x6d9d6122,0xfde5380c,0xa4beea44,0x4bdecfa9,0xf6bb4b60,0xbebfbc70,",
    "        0x289b7ec6,0xeaa127fa,0xd4ef3085,0x04881d05,0xd9d4d039,0xe6db99e5,0x1fa27cf8,0xc4ac5665,",
    "        0xf4292244,0x432aff97,0xab9423a7,0xfc93a039,0x655b59c3,0x8f0ccc92,0xffeff47d,0x85845dd1,",
    "        0x6fa87e4f,0xfe2ce6e0,0xa3014314,0x4e0811a1,0xf7537e82,0xbd3af235,0x2ad7d2bb,0xeb86d391",
    "    };",
    "    static const int s[64] = {7,12,17,22,7,12,17,22,7,12,17,22,7,12,17,22,5,9,14,20,5,9,14,20,5,9,14,20,5,9,14,20,4,11,16,23,4,11,16,23,4,11,16,23,4,11,16,23,6,10,15,21,6,10,15,21,6,10,15,21,6,10,15,21};",
    "    uint32_t a0=0x67452301,b0=0xefcdab89,c0=0x98badcfe,d0=0x10325476;",
    "    size_t dlen=strlen(data);",
    "    size_t padded=((dlen+9+63)/64)*64;",
    "    uint8_t* msg=(uint8_t*)calloc(padded,1);",
    "    memcpy(msg,data,dlen);",
    "    msg[dlen]=0x80;",
    "    uint64_t bits=(uint64_t)dlen*8;",
    "    for(int i=0;i<8;i++) msg[padded-8+i]=(uint8_t)(bits>>(i*8));",
    "    for(size_t off=0;off<padded;off+=64){",
    "        uint32_t M[16];",
    "        for(int i=0;i<16;i++) M[i]=((uint32_t)msg[off+i*4])|((uint32_t)msg[off+i*4+1]<<8)|((uint32_t)msg[off+i*4+2]<<16)|((uint32_t)msg[off+i*4+3]<<24);",
    "        uint32_t A=a0,B=b0,C=c0,D=d0;",
    "        for(int i=0;i<64;i++){",
    "            uint32_t F; int g;",
    "            if(i<16){F=(B&C)|(~B&D);g=i;}",
    "            else if(i<32){F=(D&B)|(~D&C);g=(5*i+1)%16;}",
    "            else if(i<48){F=B^C^D;g=(3*i+5)%16;}",
    "            else{F=C^(B|~D);g=(7*i)%16;}",
    "            F=F+A+T[i]+M[g];",
    "            A=D;D=C;C=B;",
    "            B=B+((F<<s[i])|(F>>(32-s[i])));",
    "        }",
];

pub const RUNTIME_10: [&'static str; 30] = [
    "        a0+=A;b0+=B;c0+=C;d0+=D;",
    "    }",
    "    free(msg);",
    "    char* hex=(char*)malloc(33);",
    "    const char* hc=\"0123456789abcdef\";",
    "    uint32_t hh[4]={a0,b0,c0,d0};",
    "    for(int i=0;i<4;i++){for(int j=0;j<4;j++){hex[i*8+j*2]=(char)hc[(hh[i]>>(j*8+4))&15];hex[i*8+j*2+1]=(char)hc[(hh[i]>>(j*8))&15];}}",
    "    hex[32]=0;",
    "    return hex;",
    "}",
    "char* __xlang_read_stdin() {",
    "    size_t cap = 65536, len = 0;",
    "    char* buf = (char*)malloc(cap);",
    "    size_t r;",
    "    while ((r = fread(buf + len, 1, cap - len, stdin)) > 0) {",
    "        len += r;",
    "        if (len + 1 >= cap) { cap *= 2; buf = (char*)realloc(buf, cap); }",
    "    }",
    "    buf[len] = 0;",
    "    return buf;",
    "}",
    "char* __xlang_read_file(const char* path) {",
    "    FILE* f = fopen(path, \"rb\");",
    "    if (!f) { char* e = (char*)malloc(1); e[0] = 0; return e; }",
    "    size_t cap = 65536, len = 0;",
    "    char* buf = (char*)malloc(cap);",
    "    size_t r;",
    "    while ((r = fread(buf + len, 1, cap - len, f)) > 0) {",
    "        len += r;",
    "        if (len + 1 >= cap) { cap *= 2; buf = (char*)realloc(buf, cap); }",
];

pub const RUNTIME_11: [&'static str; 30] = [
    "    }",
    "    buf[len] = 0; fclose(f);",
    "    return buf;",
    "}",
    "void __xlang_write_file(const char* path, const char* content) {",
    "    FILE* f = fopen(path, \"wb\");",
    "    if (!f) return;",
    "    fwrite(content, 1, strlen(content), f); fclose(f);",
    "}",
    "int32_t __xlang_str_find(const char* s, const char* sub) {",
    "    const char* p = strstr(s, sub);",
    "    return p ? (int32_t)(p - s) : -1;",
    "}",
    "char* __xlang_str_slice(const char* s, int32_t start, int32_t end) {",
    "    if (start < 0) start = 0;",
    "    if (end < start) end = start;",
    "    int32_t len = end - start;",
    "    char* out = (char*)malloc((size_t)len + 1);",
    "    memcpy(out, s + start, (size_t)len); out[len] = 0;",
    "    return out;",
    "}",
    "char* __xlang_str_trim(const char* s) {",
    "    size_t n = strlen(s), a = 0, b = n;",
    "    while (a < b && (s[a] == ' ' || s[a] == '\\t' || s[a] == '\\n' || s[a] == '\\r')) a++;",
    "    while (b > a && (s[b-1] == ' ' || s[b-1] == '\\t' || s[b-1] == '\\n' || s[b-1] == '\\r')) b--;",
    "    size_t len = b - a;",
    "    char* out = (char*)malloc(len + 1);",
    "    memcpy(out, s + a, len); out[len] = 0;",
    "    return out;",
    "}",
];

pub const RUNTIME_12: [&'static str; 30] = [
    "int32_t __xlang_str_contains(const char* s, const char* sub) {",
    "    return strstr(s, sub) != NULL ? 1 : 0;",
    "}",
    "int32_t __xlang_str_starts_with(const char* s, const char* prefix) {",
    "    size_t pl = strlen(prefix);",
    "    return strncmp(s, prefix, pl) == 0 ? 1 : 0;",
    "}",
    "int32_t __xlang_str_ends_with(const char* s, const char* suffix) {",
    "    size_t sl = strlen(s), fl = strlen(suffix);",
    "    if (fl > sl) return 0;",
    "    return strcmp(s + sl - fl, suffix) == 0 ? 1 : 0;",
    "}",
    "char* __xlang_str_replace(const char* s, const char* from, const char* to) {",
    "    size_t sl=strlen(s), fl=strlen(from), tl=strlen(to);",
    "    if(fl==0){char*d=(char*)malloc(sl+1);strcpy(d,s);return d;}",
    "    size_t count=0;",
    "    const char* p=s;",
    "    while((p=strstr(p,from))){count++;p+=fl;}",
    "    size_t outlen=sl+count*(tl>fl?tl-fl:0)+1;",
    "    char* out=(char*)malloc(outlen);",
    "    char* o=out;",
    "    const char* cur=s;",
    "    const char* next;",
    "    while((next=strstr(cur,from))){",
    "        memcpy(o,cur,next-cur);o+=next-cur;",
    "        memcpy(o,to,tl);o+=tl;",
    "        cur=next+fl;",
    "    }",
    "    strcpy(o,cur);",
    "    return out;",
];

pub const RUNTIME_13: [&'static str; 30] = [
    "}",
    "char* __xlang_str_reverse(const char* s) {",
    "    int32_t n = (int32_t)strlen(s);",
    "    char* out = (char*)malloc(n + 1);",
    "    for (int32_t i = 0; i < n; i++) out[i] = s[n - 1 - i];",
    "    out[n] = 0;",
    "    return out;",
    "}",
    "char* __xlang_str_translate(const char* s, const char* from, const char* to) {",
    "    int32_t n = (int32_t)strlen(s);",
    "    int32_t tn = (int32_t)strlen(to);",
    "    char* out = (char*)malloc(n + 1);",
    "    for (int32_t i = 0; i < n; i++) {",
    "        char* p = strchr(from, s[i]);",
    "        out[i] = (p && (p - from) < tn) ? to[p - from] : s[i];",
    "    }",
    "    out[n] = 0;",
    "    return out;",
    "}",
    "char* __xlang_read_line() {",
    "    char* buf = (char*)malloc(65536);",
    "    if (!fgets(buf, 65536, stdin)) { buf[0] = 0; return buf; }",
    "    int32_t n = (int32_t)strlen(buf);",
    "    if (n > 0 && buf[n - 1] == '\\n') buf[n - 1] = 0;",
    "    return buf;",
    "}",
    "static char* __sb_buf = 0;",
    "static size_t __sb_len = 0;",
    "static size_t __sb_cap = 0;",
    "void __xlang_sb_new() {",
];

pub const RUNTIME_14: [&'static str; 30] = [
    "    if (!__sb_buf) { __sb_buf = (char*)malloc(65536); __sb_cap = 65536; }",
    "    __sb_len = 0; __sb_buf[0] = 0;",
    "}",
    "void __xlang_sb_push(const char* s) {",
    "    size_t sl = strlen(s);",
    "    if (__sb_len + sl + 1 > __sb_cap) {",
    "        while (__sb_len + sl + 1 > __sb_cap) __sb_cap *= 2;",
    "        __sb_buf = (char*)realloc(__sb_buf, __sb_cap);",
    "    }",
    "    memcpy(__sb_buf + __sb_len, s, sl);",
    "    __sb_len += sl;",
    "    __sb_buf[__sb_len] = 0;",
    "}",
    "const char* __xlang_sb_str() {",
    "    return __sb_buf ? __sb_buf : \"\";",
    "}",
    "void __xlang_sb_push_char(int32_t c) {",
    "    if (__sb_len + 2 > __sb_cap) { __sb_cap *= 2; __sb_buf = (char*)realloc(__sb_buf, __sb_cap); }",
    "    __sb_buf[__sb_len++] = (char)c;",
    "    __sb_buf[__sb_len] = 0;",
    "}",
    "char* __xlang_time_str() {",
    "    setlocale(LC_TIME, \"\");",
    "    time_t t = time(NULL);",
    "    struct tm* tm = localtime(&t);",
    "    char* s = (char*)malloc(64);",
    "    strftime(s, 64, \"%a %b %e %H:%M:%S %Z %Y\", tm);",
    "    return s;",
    "}",
    "",
];

// Socket, epoll, pipe, process and file-system helpers, compiled only where
// the POSIX headers exist.
pub const NETWORKING_1: [&'static str; 30] = [
    "#if !defined(_WIN32)",
    "#include <unistd.h>",
    "#include <sys/socket.h>",
    "#include <netinet/in.h>",
    "#include <arpa/inet.h>",
    "#include <netdb.h>",
    "#include <dirent.h>",
    "#include <sys/stat.h>",
    "#include <signal.h>",
    "#include <sys/utsname.h>",
    "#include <sys/epoll.h>",
    "#include <fcntl.h>",
    "#include <sys/sendfile.h>",
    "#include <netinet/tcp.h>",
    "#include <errno.h>",
    "#include <sched.h>",
    "#include <sys/wait.h>",
    "int32_t __xlang_tcp_listen(int32_t port) {",
    "    int fd = socket(AF_INET, SOCK_STREAM, 0);",
    "    int opt = 1;",
    "    setsockopt(fd, SOL_SOCKET, SO_REUSEADDR, &opt, sizeof(opt));",
    "    struct sockaddr_in addr;",
    "    addr.sin_family = AF_INET;",
    "    addr.sin_addr.s_addr = INADDR_ANY;",
    "    addr.sin_port = htons((uint16_t)port);",
    "    bind(fd, (struct sockaddr*)&addr, sizeof(addr));",
    "    listen(fd, 64);",
    "    return (int32_t)fd;",
    "}",
    "// Connect a TCP client to <host>:<port>. Resolves hostnames (via",
];

pub const NETWORKING_2: [&'static str; 30] = [
    "// getaddrinfo) as well as dotted-quads, so reverse-proxy upstreams can",
    "// be named. Returns the connected fd, or -1 on failure.",
    "int32_t __xlang_tcp_connect(const char* host, int32_t port) {",
    "    struct addrinfo hints, *res, *rp;",
    "    memset(&hints, 0, sizeof(hints));",
    "    hints.ai_family = AF_INET;",
    "    hints.ai_socktype = SOCK_STREAM;",
    "    char portstr[16];",
    "    snprintf(portstr, sizeof(portstr), \"%d\", (int)port);",
    "    if (getaddrinfo(host, portstr, &hints, &res) != 0) return -1;",
    "    int fd = -1;",
    "    for (rp = res; rp != NULL; rp = rp->ai_next) {",
    "        fd = (int)socket(rp->ai_family, rp->ai_socktype, rp->ai_protocol);",
    "        if (fd < 0) continue;",
    "        if (connect(fd, rp->ai_addr, rp->ai_addrlen) == 0) break;",
    "        close(fd); fd = -1;",
    "    }",
    "    freeaddrinfo(res);",
    "    return (int32_t)fd;",
    "}",
    "char* __xlang_recv_str(int32_t fd) {",
    "    static char buf[65536];",
    "    ssize_t n = recv(fd, buf, 65535, 0);",
    "    if (n < 0) n = 0;",
    "    buf[n] = 0;",
    "    return buf;",
    "}",
    "// epoll event-loop support. A single global epoll fd + a ready-fd",
    "// ring buffer, so xlang treats epoll_wait(timeout) as \"next ready fd\".",
    "#define __XLANG_EPQ_CAP 8192",
];

pub const NETWORKING_3: [&'static str; 30] = [
    "static int32_t __xlang_epfd_g = -1;",
    "static int __xlang_epq_fd[__XLANG_EPQ_CAP];",
    "static int __xlang_epq_head = 0;",
    "static int __xlang_epq_tail = 0;",
    "int32_t __xlang_epoll_create() {",
    "    __xlang_epfd_g = epoll_create1(0);",
    "    return __xlang_epfd_g;",
    "}",
    "int32_t __xlang_epoll_add(int32_t fd) {",
    "    struct epoll_event ev;",
    "    ev.events = EPOLLIN;",
    "    ev.data.fd = fd;",
    "    return epoll_ctl(__xlang_epfd_g, EPOLL_CTL_ADD, fd, &ev) == 0 ? 0 : -1;",
    "}",
    "int32_t __xlang_epoll_del(int32_t fd) {",
    "    epoll_ctl(__xlang_epfd_g, EPOLL_CTL_DEL, fd, 0);",
    "    return 0;",
    "}",
    "int32_t __xlang_epoll_wait(int32_t timeout) {",
    "    if (__xlang_epq_head != __xlang_epq_tail) {",
    "        int fd = __xlang_epq_fd[__xlang_epq_head];",
    "        __xlang_epq_head = (__xlang_epq_head + 1) % __XLANG_EPQ_CAP;",
    "        return (int32_t)fd;",
    "    }",
    "    struct epoll_event events[256];",
    "    int n = epoll_wait(__xlang_epfd_g, events, 256, timeout);",
    "    if (n <= 0) return -1;",
    "    int i;",
    "    for (i = 0; i < n; i++) {",
    "        __xlang_epq_fd[__xlang_epq_tail] = events[i].data.fd;",
];

pub const NETWORKING_4: [&'static str; 30] = [
    "        __xlang_epq_tail = (__xlang_epq_tail + 1) % __XLANG_EPQ_CAP;",
    "    }",
    "    int fd = __xlang_epq_fd[__xlang_epq_head];",
    "    __xlang_epq_head = (__xlang_epq_head + 1) % __XLANG_EPQ_CAP;",
    "    return (int32_t)fd;",
    "}",
    "int32_t __xlang_set_nonblock(int32_t fd) {",
    "    int flags = fcntl(fd, F_GETFL, 0);",
    "    return fcntl(fd, F_SETFL, flags | O_NONBLOCK) == 0 ? 0 : -1;",
    "}",
    "int32_t __xlang_set_nodelay(int32_t fd) {",
    "    int flag = 1;",
    "    return setsockopt(fd, IPPROTO_TCP, TCP_NODELAY, &flag, sizeof(flag)) == 0 ? 0 : -1;",
    "}",
    "int32_t __xlang_open_read(const char* path) {",
    "    return (int32_t)open(path, O_RDONLY);",
    "}",
    "int32_t __xlang_open_write(const char* path) {",
    "    return (int32_t)open(path, O_WRONLY | O_CREAT | O_TRUNC, 0644);",
    "}",
    "int32_t __xlang_open_append(const char* path) {",
    "    return (int32_t)open(path, O_WRONLY | O_CREAT | O_APPEND, 0644);",
    "}",
    "// Process control for the shell: pipe(2) ends in globals (one pipeline",
    "// at a time — the shell waits on each line before reading the next).",
    "static int32_t __xlang_pipe_r = -1;",
    "static int32_t __xlang_pipe_w = -1;",
    "int32_t __xlang_make_pipe() {",
    "    int p[2];",
    "    if (pipe(p) != 0) return -1;",
];

pub const NETWORKING_5: [&'static str; 30] = [
    "    __xlang_pipe_r = p[0];",
    "    __xlang_pipe_w = p[1];",
    "    return 0;",
    "}",
    "int32_t __xlang_pipe_read_end() { return __xlang_pipe_r; }",
    "// Indexed pipe pool: supports N-stage pipelines (up to 17 stages).",
    "#define __XLANG_PIPE_POOL 16",
    "static int32_t __xlang_pr[__XLANG_PIPE_POOL];",
    "static int32_t __xlang_pw[__XLANG_PIPE_POOL];",
    "int32_t __xlang_make_pipe_at(int32_t idx) {",
    "    int p[2];",
    "    if (idx < 0 || idx >= __XLANG_PIPE_POOL) return -1;",
    "    if (pipe(p) != 0) return -1;",
    "    __xlang_pr[idx] = p[0];",
    "    __xlang_pw[idx] = p[1];",
    "    return 0;",
    "}",
    "int32_t __xlang_pipe_r_at(int32_t idx) {",
    "    return (idx >= 0 && idx < __XLANG_PIPE_POOL) ? __xlang_pr[idx] : -1;",
    "}",
    "int32_t __xlang_pipe_w_at(int32_t idx) {",
    "    return (idx >= 0 && idx < __XLANG_PIPE_POOL) ? __xlang_pw[idx] : -1;",
    "}",
    "int32_t __xlang_pipe_write_end() { return __xlang_pipe_w; }",
    "int32_t __xlang_dup2(int32_t oldfd, int32_t newfd) {",
    "    return dup2(oldfd, newfd) < 0 ? -1 : 0;",
    "}",
    "int32_t __xlang_exec_sh(const char* cmd) {",
    "    execl(\"/bin/sh\", \"sh\", \"-c\", cmd, (char*)NULL);",
    "    return -1;",
];

pub const NETWORKING_6: [&'static str; 30] = [
    "}",
    "// Tokenize cmd by whitespace and execvp(argv[0], argv) — PATH-based, so a",
    "// shell with PATH=xlang-bin runs ONLY xlang coreutils (a pure xlang",
    "// userland). Returns -1 only if exec fails (child should then exit).",
    "int32_t __xlang_exec_split(const char* cmd) {",
    "    char buf[4096];",
    "    strncpy(buf, cmd, 4095); buf[4095] = 0;",
    "    char* argv[128];",
    "    int ac = 0;",
    "    char* p = buf;",
    "    while (*p) {",
    "        while (*p == ' ' || *p == '\\t') p++;",
    "        if (!*p) break;",
    "        if (ac >= 127) break;",
    "        argv[ac++] = p;",
    "        while (*p && *p != ' ' && *p != '\\t') p++;",
    "        if (*p) { *p = 0; p++; }",
    "    }",
    "    argv[ac] = (char*)NULL;",
    "    if (ac == 0) return -1;",
    "    execvp(argv[0], argv);",
    "    return -1;",
    "}",
    "int32_t __xlang_wait_child() {",
    "    int st = 0;",
    "    pid_t p = wait(&st);",
    "    return (int32_t)p;",
    "}",
    "int32_t __xlang_wait_status() {",
    "    int st = 0;",
];

pub const NETWORKING_7: [&'static str; 30] = [
    "    wait(&st);",
    "    if (WIFEXITED(st)) return WEXITSTATUS(st);",
    "    return 1;",
    "}",
    "char* __xlang_read_fd(int32_t fd) {",
    "    size_t cap = 65536, len = 0;",
    "    char* buf = (char*)malloc(cap);",
    "    ssize_t r;",
    "    while ((r = read(fd, buf + len, cap - len)) > 0) {",
    "        len += (size_t)r;",
    "        if (len + 1 >= cap) { cap *= 2; buf = (char*)realloc(buf, cap); }",
    "    }",
    "    buf[len] = 0;",
    "    return buf;",
    "}",
    "int32_t __xlang_setenv(const char* name, const char* value) {",
    "    return setenv(name, value, 1) == 0 ? 0 : -1;",
    "}",
    "// File fd cache: hot files keep their fd open + size known, so a request",
    "// skips open/fstat/close (what nginx does). Simple linear map, cap 512.",
    "#define __XLANG_FC_N 512",
    "static char* __xlang_fc_path[__XLANG_FC_N];",
    "static int __xlang_fc_fd[__XLANG_FC_N];",
    "static int32_t __xlang_fc_size[__XLANG_FC_N];",
    "static int __xlang_fc_len = 0;",
    "int32_t __xlang_cache_open(const char* path) {",
    "    int i;",
    "    for (i = 0; i < __xlang_fc_len; i++) {",
    "        if (strcmp(__xlang_fc_path[i], path) == 0) return (int32_t)__xlang_fc_fd[i];",
    "    }",
];

pub const NETWORKING_8: [&'static str; 30] = [
    "    if (__xlang_fc_len >= __XLANG_FC_N) return -1;",
    "    int fd = open(path, O_RDONLY);",
    "    if (fd < 0) return -1;",
    "    struct stat st;",
    "    if (fstat(fd, &st) != 0) { close(fd); return -1; }",
    "    __xlang_fc_path[__xlang_fc_len] = strdup(path);",
    "    __xlang_fc_fd[__xlang_fc_len] = fd;",
    "    __xlang_fc_size[__xlang_fc_len] = (int32_t)st.st_size;",
    "    __xlang_fc_len++;",
    "    return (int32_t)fd;",
    "}",
    "int32_t __xlang_cache_size(const char* path) {",
    "    int i;",
    "    for (i = 0; i < __xlang_fc_len; i++) {",
    "        if (strcmp(__xlang_fc_path[i], path) == 0) return __xlang_fc_size[i];",
    "    }",
    "    return -1;",
    "}",
    "int32_t __xlang_sendfile_fd(int32_t out_fd, int32_t in_fd, int32_t len) {",
    "    off_t off = 0;",
    "    size_t remaining = (size_t)len;",
    "    while (remaining > 0) {",
    "        ssize_t s = sendfile(out_fd, in_fd, &off, remaining);",
    "        if (s > 0) { remaining -= (size_t)s; continue; }",
    "        // non-blocking socket buffer full: retry when writable. This keeps",
    "        // the send complete (no truncation) on non-blocking sockets while",
    "        // staying out of the way for small bodies that never hit EAGAIN.",
    "        if (s < 0 && (errno == EAGAIN || errno == EWOULDBLOCK)) { sched_yield(); continue; }",
    "        break;",
    "    }",
];

pub const NETWORKING_9: [&'static str; 30] = [
    "    return (int32_t)((size_t)len - remaining);",
    "}",
    "// Like sendfile_fd but starts at a given byte offset — used for HTTP 206",
    "// Partial Content / Range requests. `off` is the starting offset; the",
    "// kernel sendfile(2) advances its own offset pointer from there.",
    "int32_t __xlang_sendfile_range(int32_t out_fd, int32_t in_fd, int32_t offset, int32_t len) {",
    "    off_t off = (off_t)offset;",
    "    size_t remaining = (size_t)len;",
    "    while (remaining > 0) {",
    "        ssize_t s = sendfile(out_fd, in_fd, &off, remaining);",
    "        if (s > 0) { remaining -= (size_t)s; continue; }",
    "        if (s < 0 && (errno == EAGAIN || errno == EWOULDBLOCK)) { sched_yield(); continue; }",
    "        break;",
    "    }",
    "    return (int32_t)((size_t)len - remaining);",
    "}",
    "int32_t __xlang_dir_count(const char* path) {",
    "    DIR* d = opendir(path);",
    "    if (!d) return 0;",
    "    int32_t n = 0;",
    "    while (readdir(d)) n++;",
    "    closedir(d);",
    "    return n;",
    "}",
    "char* __xlang_dir_entry(const char* path, int32_t idx) {",
    "    DIR* d = opendir(path);",
    "    if (!d) return \"\";",
    "    struct dirent* e;",
    "    int32_t i = 0;",
    "    while ((e = readdir(d))) {",
];

pub const NETWORKING_10: [&'static str; 30] = [
    "        if (i == idx) {",
    "            char* copy = (char*)malloc(strlen(e->d_name) + 1);",
    "            strcpy(copy, e->d_name);",
    "            closedir(d);",
    "            return copy;",
    "        }",
    "        i++;",
    "    }",
    "    closedir(d);",
    "    return \"\";",
    "}",
    "int32_t __xlang_is_dir(const char* path) {",
    "    struct stat st;",
    "    if (stat(path, &st) != 0) return 0;",
    "    return S_ISDIR(st.st_mode) ? 1 : 0;",
    "}",
    "int32_t __xlang_file_size(const char* path) {",
    "    struct stat st;",
    "    if (stat(path, &st) != 0) return 0;",
    "    return (int32_t)st.st_size;",
    "}",
    "int32_t __xlang_file_exists(const char* path) {",
    "    struct stat st;",
    "    return stat(path, &st) == 0 ? 1 : 0;",
    "}",
    "char* __xlang_getcwd() {",
    "    char* buf = (char*)malloc(4096);",
    "    return getcwd(buf, 4096);",
    "}",
    "char* __xlang_readlink(const char* path) {",
];

pub const NETWORKING_11: [&'static str; 30] = [
    "    char* buf = (char*)malloc(4096);",
    "    ssize_t n = readlink(path, buf, 4095);",
    "    if (n < 0) { buf[0] = 0; return buf; }",
    "    buf[n] = 0;",
    "    return buf;",
    "}",
    "char* __xlang_realpath(const char* path) {",
    "    char* resolved = realpath(path, NULL);",
    "    return resolved ? resolved : \"\";",
    "}",
    "extern char** environ;",
    "int32_t __xlang_env_count() {",
    "    int32_t n = 0;",
    "    while (environ[n]) n++;",
    "    return n;",
    "}",
    "const char* __xlang_env_entry(int32_t idx) {",
    "    extern char** environ;",
    "    int32_t n = 0;",
    "    while (environ[n]) {",
    "        if (n == idx) return environ[n];",
    "        n++;",
    "    }",
    "    return \"\";",
    "}",
    "const char* __xlang_tty() {",
    "    char* name = ttyname(0);",
    "    return name ? name : \"\";",
    "}",
    "const char* __xlang_uname_machine() {",
];

pub const NETWORKING_12: [&'static str; 8] = [
    "    struct utsname u;",
    "    if (uname(&u) != 0) return \"\";",
    "    char* m = (char*)malloc(strlen(u.machine) + 1);",
    "    strcpy(m, u.machine);",
    "    return m;",
    "}",
    "#endif",
    "",
];

/// The texts of a list of lines.
pub open spec fn strs(s: Seq<&'static str>) -> Seq<Seq<char>> {
    s.map_values(|x: &'static str| x@)
}

/// Every line of the runtime helpers, in order.
pub open spec fn runtime_preamble() -> Seq<Seq<char>> {
    strs(RUNTIME_1@) + strs(RUNTIME_2@) + strs(RUNTIME_3@) + strs(RUNTIME_4@) + strs(RUNTIME_5@) + strs(RUNTIME_6@) + strs(RUNTIME_7@) + strs(RUNTIME_8@) + strs(RUNTIME_9@) + strs(RUNTIME_10@) + strs(RUNTIME_11@) + strs(RUNTIME_12@) + strs(RUNTIME_13@) + strs(RUNTIME_14@)
}

/// Every line of the networking helpers, in order.
pub open spec fn networking_preamble() -> Seq<Seq<char>> {
    strs(NETWORKING_1@) + strs(NETWORKING_2@) + strs(NETWORKING_3@) + strs(NETWORKING_4@) + strs(NETWORKING_5@) + strs(NETWORKING_6@) + strs(NETWORKING_7@) + strs(NETWORKING_8@) + strs(NETWORKING_9@) + strs(NETWORKING_10@) + strs(NETWORKING_11@) + strs(NETWORKING_12@)
}

} // verus!
