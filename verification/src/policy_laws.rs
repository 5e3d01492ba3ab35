//! What the content security policies allow, stated for every kind of media.
use vstd::prelude::*;
use crate::server::{embed_policy, preview_policy, Media};
use crate::text::starts_with;

verus! {

/// `s` ends with `p`.
pub open spec fn ends_with(s: Seq<char>, p: Seq<char>) -> bool {
    p.len() <= s.len() && s.skip(s.len() - p.len()) == p
}

proof fn lemma_prefix_char(s: Seq<char>, p: Seq<char>, k: int)
    requires
        starts_with(s, p),
        0 <= k < p.len(),
    ensures
        s[k] == p[k],
{
    assert(s.take(p.len() as int)[k] == s[k]);
}

proof fn lemma_suffix_char(s: Seq<char>, p: Seq<char>, k: int)
    requires
        ends_with(s, p),
        0 <= k < p.len(),
    ensures
        s[s.len() - p.len() + k] == p[k],
{
    assert(s.skip(s.len() - p.len())[k] == s[s.len() - p.len() + k]);
}

/// What a preview may load, by media: iframes get no policy of their own;
/// only audio previews allow inline scripts and WebAssembly; model previews,
/// and only they, load scripts from `https://ajax.googleapis.com` (the model
/// viewer); code, Markdown and PDF previews, and only they, load scripts from
/// `https://cdn.jsdelivr.net`.
pub proof fn law_preview_policy_sources(media: Media)
    ensures
        preview_policy(media) is None <==> media == Media::Iframe,
        preview_policy(media) matches Some(p) ==> {
            &&& starts_with(p, "default-src 'self'; script-src 'self' 'unsafe-inline' 'wasm-unsafe-eval'"@)
                <==> media == Media::Audio
            &&& ends_with(p, " https://ajax.googleapis.com"@) <==> media == Media::Model
            &&& ends_with(p, " https://cdn.jsdelivr.net"@)
                <==> (media is Code || media == Media::Markdown || media == Media::Pdf)
        },
{
    match media {
        Media::Audio => {
            reveal_strlit("default-src 'self'; script-src 'self' 'unsafe-inline' 'wasm-unsafe-eval'; style-src 'self' 'unsafe-inline'; media-src 'self' blob:; connect-src 'self'");
            reveal_strlit("default-src 'self'; script-src 'self' 'unsafe-inline' 'wasm-unsafe-eval'");
            reveal_strlit(" https://ajax.googleapis.com");
            reveal_strlit(" https://cdn.jsdelivr.net");
            assert(("default-src 'self'; script-src 'self' 'unsafe-inline' 'wasm-unsafe-eval'; style-src 'self' 'unsafe-inline'; media-src 'self' blob:; connect-src 'self'"@).take(("default-src 'self'; script-src 'self' 'unsafe-inline' 'wasm-unsafe-eval'"@).len() as int) =~= "default-src 'self'; script-src 'self' 'unsafe-inline' 'wasm-unsafe-eval'"@);
            if ends_with("default-src 'self'; script-src 'self' 'unsafe-inline' 'wasm-unsafe-eval'; style-src 'self' 'unsafe-inline'; media-src 'self' blob:; connect-src 'self'"@, " https://ajax.googleapis.com"@) { lemma_suffix_char("default-src 'self'; script-src 'self' 'unsafe-inline' 'wasm-unsafe-eval'; style-src 'self' 'unsafe-inline'; media-src 'self' blob:; connect-src 'self'"@, " https://ajax.googleapis.com"@, 0); }
            if ends_with("default-src 'self'; script-src 'self' 'unsafe-inline' 'wasm-unsafe-eval'; style-src 'self' 'unsafe-inline'; media-src 'self' blob:; connect-src 'self'"@, " https://cdn.jsdelivr.net"@) { lemma_suffix_char("default-src 'self'; script-src 'self' 'unsafe-inline' 'wasm-unsafe-eval'; style-src 'self' 'unsafe-inline'; media-src 'self' blob:; connect-src 'self'"@, " https://cdn.jsdelivr.net"@, 0); }
        },
        Media::Code(_) => {
            reveal_strlit("script-src-elem 'self' https://cdn.jsdelivr.net");
            reveal_strlit("default-src 'self'; script-src 'self' 'unsafe-inline' 'wasm-unsafe-eval'");
            reveal_strlit(" https://ajax.googleapis.com");
            reveal_strlit(" https://cdn.jsdelivr.net");
            if ends_with("script-src-elem 'self' https://cdn.jsdelivr.net"@, " https://ajax.googleapis.com"@) { lemma_suffix_char("script-src-elem 'self' https://cdn.jsdelivr.net"@, " https://ajax.googleapis.com"@, 0); }
            assert(("script-src-elem 'self' https://cdn.jsdelivr.net"@).skip(("script-src-elem 'self' https://cdn.jsdelivr.net"@).len() - (" https://cdn.jsdelivr.net"@).len()) =~= " https://cdn.jsdelivr.net"@);
        },
        Media::Font => {
            reveal_strlit("script-src-elem 'self'; style-src 'self' 'unsafe-inline'");
            reveal_strlit("default-src 'self'; script-src 'self' 'unsafe-inline' 'wasm-unsafe-eval'");
            reveal_strlit(" https://ajax.googleapis.com");
            reveal_strlit(" https://cdn.jsdelivr.net");
            if ends_with("script-src-elem 'self'; style-src 'self' 'unsafe-inline'"@, " https://ajax.googleapis.com"@) { lemma_suffix_char("script-src-elem 'self'; style-src 'self' 'unsafe-inline'"@, " https://ajax.googleapis.com"@, 0); }
            if ends_with("script-src-elem 'self'; style-src 'self' 'unsafe-inline'"@, " https://cdn.jsdelivr.net"@) { lemma_suffix_char("script-src-elem 'self'; style-src 'self' 'unsafe-inline'"@, " https://cdn.jsdelivr.net"@, 0); }
        },
        Media::Iframe => {},
        Media::Image(_) => {
            reveal_strlit("default-src 'self' 'unsafe-inline'");
            reveal_strlit("default-src 'self'; script-src 'self' 'unsafe-inline' 'wasm-unsafe-eval'");
            reveal_strlit(" https://ajax.googleapis.com");
            reveal_strlit(" https://cdn.jsdelivr.net");
            if ends_with("default-src 'self' 'unsafe-inline'"@, " https://ajax.googleapis.com"@) { lemma_suffix_char("default-src 'self' 'unsafe-inline'"@, " https://ajax.googleapis.com"@, 0); }
            if ends_with("default-src 'self' 'unsafe-inline'"@, " https://cdn.jsdelivr.net"@) { lemma_suffix_char("default-src 'self' 'unsafe-inline'"@, " https://cdn.jsdelivr.net"@, 0); }
        },
        Media::Markdown => {
            reveal_strlit("script-src-elem 'self' https://cdn.jsdelivr.net");
            reveal_strlit("default-src 'self'; script-src 'self' 'unsafe-inline' 'wasm-unsafe-eval'");
            reveal_strlit(" https://ajax.googleapis.com");
            reveal_strlit(" https://cdn.jsdelivr.net");
            if ends_with("script-src-elem 'self' https://cdn.jsdelivr.net"@, " https://ajax.googleapis.com"@) { lemma_suffix_char("script-src-elem 'self' https://cdn.jsdelivr.net"@, " https://ajax.googleapis.com"@, 0); }
            assert(("script-src-elem 'self' https://cdn.jsdelivr.net"@).skip(("script-src-elem 'self' https://cdn.jsdelivr.net"@).len() - (" https://cdn.jsdelivr.net"@).len()) =~= " https://cdn.jsdelivr.net"@);
        },
        Media::Model => {
            reveal_strlit("script-src-elem 'self' https://ajax.googleapis.com");
            reveal_strlit("default-src 'self'; script-src 'self' 'unsafe-inline' 'wasm-unsafe-eval'");
            reveal_strlit(" https://ajax.googleapis.com");
            reveal_strlit(" https://cdn.jsdelivr.net");
            assert(("script-src-elem 'self' https://ajax.googleapis.com"@).skip(("script-src-elem 'self' https://ajax.googleapis.com"@).len() - (" https://ajax.googleapis.com"@).len()) =~= " https://ajax.googleapis.com"@);
            if ends_with("script-src-elem 'self' https://ajax.googleapis.com"@, " https://cdn.jsdelivr.net"@) { lemma_suffix_char("script-src-elem 'self' https://ajax.googleapis.com"@, " https://cdn.jsdelivr.net"@, 0); }
        },
        Media::Pdf => {
            reveal_strlit("script-src-elem 'self' https://cdn.jsdelivr.net");
            reveal_strlit("default-src 'self'; script-src 'self' 'unsafe-inline' 'wasm-unsafe-eval'");
            reveal_strlit(" https://ajax.googleapis.com");
            reveal_strlit(" https://cdn.jsdelivr.net");
            if ends_with("script-src-elem 'self' https://cdn.jsdelivr.net"@, " https://ajax.googleapis.com"@) { lemma_suffix_char("script-src-elem 'self' https://cdn.jsdelivr.net"@, " https://ajax.googleapis.com"@, 0); }
            assert(("script-src-elem 'self' https://cdn.jsdelivr.net"@).skip(("script-src-elem 'self' https://cdn.jsdelivr.net"@).len() - (" https://cdn.jsdelivr.net"@).len()) =~= " https://cdn.jsdelivr.net"@);
        },
        Media::Text => {
            reveal_strlit("default-src 'self'");
            reveal_strlit("default-src 'self'; script-src 'self' 'unsafe-inline' 'wasm-unsafe-eval'");
            reveal_strlit(" https://ajax.googleapis.com");
            reveal_strlit(" https://cdn.jsdelivr.net");
        },
        Media::Unknown => {
            reveal_strlit("default-src 'self'");
            reveal_strlit("default-src 'self'; script-src 'self' 'unsafe-inline' 'wasm-unsafe-eval'");
            reveal_strlit(" https://ajax.googleapis.com");
            reveal_strlit(" https://cdn.jsdelivr.net");
        },
        Media::Video => {
            reveal_strlit("default-src 'self'");
            reveal_strlit("default-src 'self'; script-src 'self' 'unsafe-inline' 'wasm-unsafe-eval'");
            reveal_strlit(" https://ajax.googleapis.com");
            reveal_strlit(" https://cdn.jsdelivr.net");
        },
    }
}

/// What an embed may load, by media: only audio embeds allow inline scripts
/// and WebAssembly; only video embeds start by allowing `blob:` media; only
/// image embeds start by allowing `data:` images; every other media gets the
/// plain policy.
pub proof fn law_embed_policy_sources(media: Media)
    ensures
        starts_with(embed_policy(media), "default-src 'self'; script-src 'self' 'unsafe-inline' 'wasm-unsafe-eval'"@)
            <==> media == Media::Audio,
        starts_with(embed_policy(media), "default-src 'self'; media-src 'self' blob:"@) <==> media == Media::Video,
        starts_with(embed_policy(media), "default-src 'self'; img-src 'self' data:"@) <==> media is Image,
{
    match media {
        Media::Audio => {
            reveal_strlit("default-src 'self'; script-src 'self' 'unsafe-inline' 'wasm-unsafe-eval'; style-src 'self' 'unsafe-inline'; media-src 'self' blob:; connect-src 'self'; img-src 'self' data:");
            reveal_strlit("default-src 'self'; script-src 'self' 'unsafe-inline' 'wasm-unsafe-eval'");
            reveal_strlit("default-src 'self'; media-src 'self' blob:");
            reveal_strlit("default-src 'self'; img-src 'self' data:");
            assert(("default-src 'self'; script-src 'self' 'unsafe-inline' 'wasm-unsafe-eval'; style-src 'self' 'unsafe-inline'; media-src 'self' blob:; connect-src 'self'; img-src 'self' data:"@).take(("default-src 'self'; script-src 'self' 'unsafe-inline' 'wasm-unsafe-eval'"@).len() as int) =~= "default-src 'self'; script-src 'self' 'unsafe-inline' 'wasm-unsafe-eval'"@);
            if starts_with("default-src 'self'; script-src 'self' 'unsafe-inline' 'wasm-unsafe-eval'; style-src 'self' 'unsafe-inline'; media-src 'self' blob:; connect-src 'self'; img-src 'self' data:"@, "default-src 'self'; media-src 'self' blob:"@) { lemma_prefix_char("default-src 'self'; script-src 'self' 'unsafe-inline' 'wasm-unsafe-eval'; style-src 'self' 'unsafe-inline'; media-src 'self' blob:; connect-src 'self'; img-src 'self' data:"@, "default-src 'self'; media-src 'self' blob:"@, 20); }
            if starts_with("default-src 'self'; script-src 'self' 'unsafe-inline' 'wasm-unsafe-eval'; style-src 'self' 'unsafe-inline'; media-src 'self' blob:; connect-src 'self'; img-src 'self' data:"@, "default-src 'self'; img-src 'self' data:"@) { lemma_prefix_char("default-src 'self'; script-src 'self' 'unsafe-inline' 'wasm-unsafe-eval'; style-src 'self' 'unsafe-inline'; media-src 'self' blob:; connect-src 'self'; img-src 'self' data:"@, "default-src 'self'; img-src 'self' data:"@, 20); }
        },
        Media::Image(_) => {
            reveal_strlit("default-src 'self'; img-src 'self' data:; style-src 'self' 'unsafe-inline'");
            reveal_strlit("default-src 'self'; script-src 'self' 'unsafe-inline' 'wasm-unsafe-eval'");
            reveal_strlit("default-src 'self'; media-src 'self' blob:");
            reveal_strlit("default-src 'self'; img-src 'self' data:");
            if starts_with("default-src 'self'; img-src 'self' data:; style-src 'self' 'unsafe-inline'"@, "default-src 'self'; script-src 'self' 'unsafe-inline' 'wasm-unsafe-eval'"@) { lemma_prefix_char("default-src 'self'; img-src 'self' data:; style-src 'self' 'unsafe-inline'"@, "default-src 'self'; script-src 'self' 'unsafe-inline' 'wasm-unsafe-eval'"@, 20); }
            if starts_with("default-src 'self'; img-src 'self' data:; style-src 'self' 'unsafe-inline'"@, "default-src 'self'; media-src 'self' blob:"@) { lemma_prefix_char("default-src 'self'; img-src 'self' data:; style-src 'self' 'unsafe-inline'"@, "default-src 'self'; media-src 'self' blob:"@, 20); }
            assert(("default-src 'self'; img-src 'self' data:; style-src 'self' 'unsafe-inline'"@).take(("default-src 'self'; img-src 'self' data:"@).len() as int) =~= "default-src 'self'; img-src 'self' data:"@);
        },
        Media::Video => {
            reveal_strlit("default-src 'self'; media-src 'self' blob:; style-src 'self' 'unsafe-inline'");
            reveal_strlit("default-src 'self'; script-src 'self' 'unsafe-inline' 'wasm-unsafe-eval'");
            reveal_strlit("default-src 'self'; media-src 'self' blob:");
            reveal_strlit("default-src 'self'; img-src 'self' data:");
            if starts_with("default-src 'self'; media-src 'self' blob:; style-src 'self' 'unsafe-inline'"@, "default-src 'self'; script-src 'self' 'unsafe-inline' 'wasm-unsafe-eval'"@) { lemma_prefix_char("default-src 'self'; media-src 'self' blob:; style-src 'self' 'unsafe-inline'"@, "default-src 'self'; script-src 'self' 'unsafe-inline' 'wasm-unsafe-eval'"@, 20); }
            assert(("default-src 'self'; media-src 'self' blob:; style-src 'self' 'unsafe-inline'"@).take(("default-src 'self'; media-src 'self' blob:"@).len() as int) =~= "default-src 'self'; media-src 'self' blob:"@);
            if starts_with("default-src 'self'; media-src 'self' blob:; style-src 'self' 'unsafe-inline'"@, "default-src 'self'; img-src 'self' data:"@) { lemma_prefix_char("default-src 'self'; media-src 'self' blob:; style-src 'self' 'unsafe-inline'"@, "default-src 'self'; img-src 'self' data:"@, 20); }
        },
        Media::Code(_) => {
            reveal_strlit("default-src 'self'; style-src 'self' 'unsafe-inline'");
            reveal_strlit("default-src 'self'; script-src 'self' 'unsafe-inline' 'wasm-unsafe-eval'");
            reveal_strlit("default-src 'self'; media-src 'self' blob:");
            reveal_strlit("default-src 'self'; img-src 'self' data:");
            if starts_with("default-src 'self'; style-src 'self' 'unsafe-inline'"@, "default-src 'self'; media-src 'self' blob:"@) { lemma_prefix_char("default-src 'self'; style-src 'self' 'unsafe-inline'"@, "default-src 'self'; media-src 'self' blob:"@, 20); }
            if starts_with("default-src 'self'; style-src 'self' 'unsafe-inline'"@, "default-src 'self'; img-src 'self' data:"@) { lemma_prefix_char("default-src 'self'; style-src 'self' 'unsafe-inline'"@, "default-src 'self'; img-src 'self' data:"@, 20); }
        },
        Media::Font => {
            reveal_strlit("default-src 'self'; style-src 'self' 'unsafe-inline'");
            reveal_strlit("default-src 'self'; script-src 'self' 'unsafe-inline' 'wasm-unsafe-eval'");
            reveal_strlit("default-src 'self'; media-src 'self' blob:");
            reveal_strlit("default-src 'self'; img-src 'self' data:");
            if starts_with("default-src 'self'; style-src 'self' 'unsafe-inline'"@, "default-src 'self'; media-src 'self' blob:"@) { lemma_prefix_char("default-src 'self'; style-src 'self' 'unsafe-inline'"@, "default-src 'self'; media-src 'self' blob:"@, 20); }
            if starts_with("default-src 'self'; style-src 'self' 'unsafe-inline'"@, "default-src 'self'; img-src 'self' data:"@) { lemma_prefix_char("default-src 'self'; style-src 'self' 'unsafe-inline'"@, "default-src 'self'; img-src 'self' data:"@, 20); }
        },
        Media::Iframe => {
            reveal_strlit("default-src 'self'; style-src 'self' 'unsafe-inline'");
            reveal_strlit("default-src 'self'; script-src 'self' 'unsafe-inline' 'wasm-unsafe-eval'");
            reveal_strlit("default-src 'self'; media-src 'self' blob:");
            reveal_strlit("default-src 'self'; img-src 'self' data:");
            if starts_with("default-src 'self'; style-src 'self' 'unsafe-inline'"@, "default-src 'self'; media-src 'self' blob:"@) { lemma_prefix_char("default-src 'self'; style-src 'self' 'unsafe-inline'"@, "default-src 'self'; media-src 'self' blob:"@, 20); }
            if starts_with("default-src 'self'; style-src 'self' 'unsafe-inline'"@, "default-src 'self'; img-src 'self' data:"@) { lemma_prefix_char("default-src 'self'; style-src 'self' 'unsafe-inline'"@, "default-src 'self'; img-src 'self' data:"@, 20); }
        },
        Media::Markdown => {
            reveal_strlit("default-src 'self'; style-src 'self' 'unsafe-inline'");
            reveal_strlit("default-src 'self'; script-src 'self' 'unsafe-inline' 'wasm-unsafe-eval'");
            reveal_strlit("default-src 'self'; media-src 'self' blob:");
            reveal_strlit("default-src 'self'; img-src 'self' data:");
            if starts_with("default-src 'self'; style-src 'self' 'unsafe-inline'"@, "default-src 'self'; media-src 'self' blob:"@) { lemma_prefix_char("default-src 'self'; style-src 'self' 'unsafe-inline'"@, "default-src 'self'; media-src 'self' blob:"@, 20); }
            if starts_with("default-src 'self'; style-src 'self' 'unsafe-inline'"@, "default-src 'self'; img-src 'self' data:"@) { lemma_prefix_char("default-src 'self'; style-src 'self' 'unsafe-inline'"@, "default-src 'self'; img-src 'self' data:"@, 20); }
        },
        Media::Model => {
            reveal_strlit("default-src 'self'; style-src 'self' 'unsafe-inline'");
            reveal_strlit("default-src 'self'; script-src 'self' 'unsafe-inline' 'wasm-unsafe-eval'");
            reveal_strlit("default-src 'self'; media-src 'self' blob:");
            reveal_strlit("default-src 'self'; img-src 'self' data:");
            if starts_with("default-src 'self'; style-src 'self' 'unsafe-inline'"@, "default-src 'self'; media-src 'self' blob:"@) { lemma_prefix_char("default-src 'self'; style-src 'self' 'unsafe-inline'"@, "default-src 'self'; media-src 'self' blob:"@, 20); }
            if starts_with("default-src 'self'; style-src 'self' 'unsafe-inline'"@, "default-src 'self'; img-src 'self' data:"@) { lemma_prefix_char("default-src 'self'; style-src 'self' 'unsafe-inline'"@, "default-src 'self'; img-src 'self' data:"@, 20); }
        },
        Media::Pdf => {
            reveal_strlit("default-src 'self'; style-src 'self' 'unsafe-inline'");
            reveal_strlit("default-src 'self'; script-src 'self' 'unsafe-inline' 'wasm-unsafe-eval'");
            reveal_strlit("default-src 'self'; media-src 'self' blob:");
            reveal_strlit("default-src 'self'; img-src 'self' data:");
            if starts_with("default-src 'self'; style-src 'self' 'unsafe-inline'"@, "default-src 'self'; media-src 'self' blob:"@) { lemma_prefix_char("default-src 'self'; style-src 'self' 'unsafe-inline'"@, "default-src 'self'; media-src 'self' blob:"@, 20); }
            if starts_with("default-src 'self'; style-src 'self' 'unsafe-inline'"@, "default-src 'self'; img-src 'self' data:"@) { lemma_prefix_char("default-src 'self'; style-src 'self' 'unsafe-inline'"@, "default-src 'self'; img-src 'self' data:"@, 20); }
        },
        Media::Text => {
            reveal_strlit("default-src 'self'; style-src 'self' 'unsafe-inline'");
            reveal_strlit("default-src 'self'; script-src 'self' 'unsafe-inline' 'wasm-unsafe-eval'");
            reveal_strlit("default-src 'self'; media-src 'self' blob:");
            reveal_strlit("default-src 'self'; img-src 'self' data:");
            if starts_with("default-src 'self'; style-src 'self' 'unsafe-inline'"@, "default-src 'self'; media-src 'self' blob:"@) { lemma_prefix_char("default-src 'self'; style-src 'self' 'unsafe-inline'"@, "default-src 'self'; media-src 'self' blob:"@, 20); }
            if starts_with("default-src 'self'; style-src 'self' 'unsafe-inline'"@, "default-src 'self'; img-src 'self' data:"@) { lemma_prefix_char("default-src 'self'; style-src 'self' 'unsafe-inline'"@, "default-src 'self'; img-src 'self' data:"@, 20); }
        },
        Media::Unknown => {
            reveal_strlit("default-src 'self'; style-src 'self' 'unsafe-inline'");
            reveal_strlit("default-src 'self'; script-src 'self' 'unsafe-inline' 'wasm-unsafe-eval'");
            reveal_strlit("default-src 'self'; media-src 'self' blob:");
            reveal_strlit("default-src 'self'; img-src 'self' data:");
            if starts_with("default-src 'self'; style-src 'self' 'unsafe-inline'"@, "default-src 'self'; media-src 'self' blob:"@) { lemma_prefix_char("default-src 'self'; style-src 'self' 'unsafe-inline'"@, "default-src 'self'; media-src 'self' blob:"@, 20); }
            if starts_with("default-src 'self'; style-src 'self' 'unsafe-inline'"@, "default-src 'self'; img-src 'self' data:"@) { lemma_prefix_char("default-src 'self'; style-src 'self' 'unsafe-inline'"@, "default-src 'self'; img-src 'self' data:"@, 20); }
        },
    }
}

} // verus!
