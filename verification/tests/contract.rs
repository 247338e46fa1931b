use apk_fetch::common::contract::{
    download_filename, AppResult, Arch, Date, DownloadTarget, ProviderConst, ProviderError,
    ProviderFailure, ProviderId, ResolveError, Url, VersionInfo,
};
use apk_fetch::common::fallback::Fallback;
use apk_fetch::common::registry::{Provider, ProviderRegistry};
use apk_fetch::providers::apkcombo::ApkCombo;
use apk_fetch::providers::apkmirror::ApkMirror;
use apk_fetch::providers::apkpure::ApkPure;

#[test]
fn contract_filename_shape() {
    assert_eq!(
        download_filename("org.mozilla.firefox", "155.0.1", Arch::arm64_v8a()),
        "org.mozilla.firefox-155.0.1-arm64-v8a"
    );
    assert_eq!(
        download_filename("mozilla/firefox", "1.0", Arch::all()),
        "mozilla_firefox-1.0-universal"
    );
}

#[test]
fn arch_round_trip() {
    assert_eq!(" arm64-v8a ".parse(), Ok(Arch::arm64_v8a()));
    assert_eq!("x86_64".parse(), Ok(Arch::x86_64()));
    assert_eq!("X86".parse(), Ok(Arch::x86()));
    assert_eq!("universal".parse(), Ok(Arch::all()));
    assert_eq!("noarch".parse(), Ok(Arch::all()));
    // split bundles: the listed set, every ABI == universal
    assert_eq!("arm64-v8a, armeabi-v7a, x86, x86_64".parse(), Ok(Arch::all()));
    assert_eq!(
        "arm64-v8a + x86".parse(),
        Ok(Arch::arm64_v8a().union(Arch::x86()))
    );
    // absent or unknown: resolves as universal
    assert!("".parse::<Arch>().is_err());
    assert!("mips".parse::<Arch>().is_err());

    assert_eq!(Arch::all().to_string(), "universal");
    assert_eq!(Arch::armeabi_v7a().to_string(), "armeabi-v7a");
    assert_eq!(Arch::arm64_v8a().union(Arch::x86()).to_string(), "arm64-v8a+x86");
}

#[test]
fn every_set_of_abis_reads_back() {
    for n in 1..16u32 {
        let a = Arch {
            arm64_v8a: n & 1 != 0,
            armeabi_v7a: n & 2 != 0,
            x86: n & 4 != 0,
            x86_64: n & 8 != 0,
        };
        assert_eq!(Arch::parse(&a.to_string()), Ok(a));
        assert_eq!(a.to_string().parse(), Ok(a));
        assert_eq!(a.count(), n.count_ones());
        assert!(!a.is_empty());
    }
    assert!(Arch::empty().is_empty());
    assert_eq!(Arch::empty().count(), 0);
}

#[test]
fn labels_in_any_order() {
    let both = Ok(Arch::x86().union(Arch::arm64_v8a()));
    assert_eq!("x86,arm64-v8a".parse(), both);
    assert_eq!("ARM64-v8a + x86, x86".parse(), both);
    // One bad label fails the whole list.
    assert_eq!("arm64-v8a,mips".parse::<Arch>(), Err("unknown arch \"mips\"".to_string()));
    assert_eq!(" ,+ ".parse::<Arch>(), Err("empty arch".to_string()));
}

#[test]
fn arch_complaints() {
    assert_eq!(Arch::parse("mips"), Err("unknown arch \"mips\"".to_string()));
    assert_eq!(
        Arch::parse("x86 a\"b"),
        Err("unknown arch \"a\\\"b\"".to_string())
    );
    assert_eq!(Arch::parse(" , + "), Err("empty arch".to_string()));
}

#[test]
fn arch_containment() {
    assert!(Arch::all().contains(Arch::x86()));
    assert!(!Arch::x86().contains(Arch::all()));
    assert!(Arch::x86().contains(Arch::empty()));
    assert_eq!(Arch::single("ARM64-V8A"), Some(Arch::arm64_v8a()));
    assert_eq!(Arch::single("arm"), None);
}

#[test]
fn provider_names_and_order() {
    let order = ProviderId::default_priority();
    assert_eq!(
        order,
        vec![ProviderId::Apkcombo, ProviderId::Apkpure, ProviderId::Apkmirror]
    );
    assert_eq!(ProviderId::Apkmirror.as_str(), "apkmirror");
    assert_eq!(ProviderId::Apkpure.to_string(), "apkpure");
    assert_eq!(ProviderId::Apkcombo.to_string(), "apkcombo");
    assert_eq!(ApkMirror::id(), ProviderId::Apkmirror);
    assert_eq!(ApkMirror::base_url(), "https://www.apkmirror.com");
    assert_eq!(ApkPure::id(), ProviderId::Apkpure);
    assert_eq!(ApkCombo::base_url(), "https://apkcombo.com");
}

#[test]
fn urls_are_absolute_and_lead_back() {
    let u: Url<ApkCombo> = Url::of("/youtube/com.x/");
    assert_eq!(u.as_str(), "https://apkcombo.com/youtube/com.x/");
    assert_eq!(u.path().as_deref(), Some("youtube/com.x"));
    let v: Url<ApkCombo> = Url::of("https://elsewhere.org/a");
    assert_eq!(v.to_string(), "https://elsewhere.org/a");
    assert_eq!(v.path(), None);
    assert_eq!(v.clone().into_string(), "https://elsewhere.org/a");
    let w: Url<ApkCombo> = Url::of("youtube/com.x");
    let again: Url<ApkCombo> = Url::of(&format!("/{}", w.path().unwrap()));
    assert_eq!(again.as_str(), w.as_str());
}

#[test]
fn dates_as_text() {
    assert_eq!(Date { year: 2026, month: 9, day: 7 }.to_string(), "2026-09-07");
    assert_eq!(Date { year: 33, month: 12, day: 31 }.to_string(), "0033-12-31");
    assert_eq!(Date { year: -1, month: 1, day: 1 }.to_string(), "-0001-01-01");
    assert_eq!(Date { year: 12345, month: 1, day: 1 }.to_string(), "+12345-01-01");
}

#[test]
fn errors_as_text() {
    assert_eq!(
        ProviderError::NotFound("no results".to_string())
            .raised_by(ProviderId::Apkpure)
            .to_string(),
        "apkpure: no results"
    );
    let e = ResolveError {
        pkg: "com.x".to_string(),
        attempts: vec![
            ProviderError::Blocked.raised_by(ProviderId::Apkmirror),
            ProviderError::Network("down".to_string()).raised_by(ProviderId::Apkpure),
        ],
    };
    let text = e.to_string();
    assert!(text.contains("com.x"));
    assert!(text.contains("apkmirror: "));
    assert!(text.ends_with("down"));
}

#[test]
fn file_names_hold_nothing_unsafe() {
    let name = download_filename("a/b\\c:d e", "1.0 (β)", Arch::x86());
    assert!(name
        .chars()
        .all(|c| c.is_ascii_alphanumeric() || c == '.' || c == '-' || c == '_' || c == '+'));
    assert_eq!(name, "a_b_c_d_e-1.0____-x86");
}

/// A provider whose answers are fixed.
struct Fixed {
    id: ProviderId,
    answer: Option<&'static str>,
}

impl Provider for Fixed {
    fn id(&self) -> ProviderId {
        self.id
    }

    fn search(&self, query: &str) -> Result<Vec<AppResult>, ProviderError> {
        match self.answer {
            Some(v) => Ok(vec![AppResult {
                package: query.to_string(),
                title: v.to_string(),
            }]),
            None => Err(ProviderError::Blocked),
        }
    }

    fn versions(&self, _pkg: &str) -> Result<Vec<VersionInfo>, ProviderError> {
        match self.answer {
            Some(v) => Ok(vec![VersionInfo {
                version: v.to_string(),
                uploaded: Date { year: 2026, month: 1, day: 2 },
            }]),
            None => Err(ProviderError::NotFound("nothing".to_string())),
        }
    }

    fn download_url(
        &self,
        pkg: &str,
        version: Option<&str>,
        arch: Arch,
    ) -> Result<DownloadTarget, ProviderError> {
        match self.answer {
            Some(v) => Ok(DownloadTarget {
                url: format!("https://x/{pkg}"),
                version: version.unwrap_or(v).to_string(),
                arch,
                provider: self.id,
                headers: Vec::new(),
            }),
            None => Err(ProviderError::Network("down".to_string())),
        }
    }
}

#[test]
fn registry_asks_the_named_provider() {
    let r = ProviderRegistry::new(vec![
        Fixed { id: ProviderId::Apkmirror, answer: None },
        Fixed { id: ProviderId::Apkpure, answer: Some("2.0") },
    ]);
    assert_eq!(r.names(), vec![ProviderId::Apkmirror, ProviderId::Apkpure]);
    assert_eq!(r.search(ProviderId::Apkpure, "q").unwrap()[0].package, "q");
    let f = r.search(ProviderId::Apkmirror, "q").unwrap_err();
    assert_eq!(f.provider, ProviderId::Apkmirror);
    assert!(matches!(f.source, ProviderError::Blocked));
    assert_eq!(r.versions(ProviderId::Apkpure, "q").unwrap()[0].version, "2.0");
    assert!(r.versions(ProviderId::Apkmirror, "q").is_err());
    assert!(r
        .download_url(ProviderId::Apkmirror, "q", None, Arch::all())
        .is_err());
    assert!(r.check(ProviderId::Apkpure).is_ok());
    assert!(r.check(ProviderId::Apkmirror).is_err());
}

#[test]
fn fallback_takes_the_first_that_resolves() {
    let r = ProviderRegistry::new(vec![
        Fixed { id: ProviderId::Apkmirror, answer: None },
        Fixed { id: ProviderId::Apkpure, answer: Some("2.0") },
        Fixed { id: ProviderId::Apkcombo, answer: Some("3.0") },
    ]);
    let t = r.resolve_with_fallback("com.x", None, Arch::x86()).unwrap();
    assert_eq!(t.provider, ProviderId::Apkpure);
    assert_eq!(t.version, "2.0");
    let pinned = r
        .resolve_with_fallback("com.x", Some("1.5"), Arch::x86())
        .unwrap();
    assert_eq!(pinned.version, "1.5");
}

#[test]
fn fallback_reports_every_attempt() {
    let r = ProviderRegistry::new(vec![
        Fixed { id: ProviderId::Apkpure, answer: None },
        Fixed { id: ProviderId::Apkmirror, answer: None },
    ]);
    let e = r
        .resolve_with_fallback("com.x", None, Arch::all())
        .unwrap_err();
    assert_eq!(e.pkg, "com.x");
    let who: Vec<ProviderId> = e.attempts.iter().map(|a| a.provider).collect();
    assert_eq!(who, vec![ProviderId::Apkpure, ProviderId::Apkmirror]);
    let none: ProviderRegistry<Fixed> = ProviderRegistry::new(Vec::new());
    assert!(none
        .resolve_with_fallback("com.x", None, Arch::all())
        .unwrap_err()
        .attempts
        .is_empty());
}

#[test]
fn fallback_step_by_step() {
    let order = vec![ProviderId::Apkmirror, ProviderId::Apkpure, ProviderId::Apkcombo];
    let mut f: Fallback<ProviderId, u8, ProviderFailure> = Fallback::start(order.clone());
    assert_eq!(f.next(), Some(ProviderId::Apkmirror));
    f.absorb(Err(ProviderError::Blocked.raised_by(ProviderId::Apkmirror)));
    assert_eq!(f.next(), Some(ProviderId::Apkpure));
    // Nobody is asked after a success.
    f.absorb(Ok(7));
    assert_eq!(f.next(), None);
    assert!(matches!(f.finish(), Ok(7)));
    let mut g: Fallback<ProviderId, u8, ProviderFailure> = Fallback::start(order[..1].to_vec());
    g.absorb(Err(ProviderError::Blocked.raised_by(ProviderId::Apkmirror)));
    assert_eq!(g.next(), None);
    let failures = g.finish().unwrap_err();
    assert_eq!(failures.len(), 1);
    assert_eq!(failures[0].provider, ProviderId::Apkmirror);
}
