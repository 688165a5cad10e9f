use cosmo::names::{cone_kind_from_name, setting_key_from_name, ConeKind, ConeNameError, SettingKey};

#[test]
fn cone_names_any_case() {
    assert_eq!(cone_kind_from_name("zero"), Ok(ConeKind::Zero));
    assert_eq!(cone_kind_from_name("Z"), Ok(ConeKind::Zero));
    assert_eq!(cone_kind_from_name("EQ"), Ok(ConeKind::Zero));
    assert_eq!(cone_kind_from_name("NonNeg"), Ok(ConeKind::Nonnegative));
    assert_eq!(cone_kind_from_name("l"), Ok(ConeKind::Nonnegative));
    assert_eq!(cone_kind_from_name("SOC"), Ok(ConeKind::SecondOrder));
    assert_eq!(cone_kind_from_name("q"), Ok(ConeKind::SecondOrder));
    assert_eq!(cone_kind_from_name("ep"), Ok(ConeKind::Exponential));
    assert_eq!(cone_kind_from_name("DualExp"), Ok(ConeKind::DualExponential));
    assert_eq!(cone_kind_from_name("pow"), Ok(ConeKind::Power));
    assert_eq!(cone_kind_from_name("dualpower"), Ok(ConeKind::DualPower));
    assert_eq!(cone_kind_from_name("PSD"), Err(ConeNameError::Psd));
    assert_eq!(cone_kind_from_name("sdp"), Err(ConeNameError::Psd));
    assert_eq!(cone_kind_from_name("box"), Err(ConeNameError::Unknown));
    assert_eq!(cone_kind_from_name(""), Err(ConeNameError::Unknown));
    assert_eq!(cone_kind_from_name("zeros"), Err(ConeNameError::Unknown));
}

#[test]
fn setting_keys_exact() {
    assert_eq!(setting_key_from_name("rho"), Some(SettingKey::Rho));
    assert_eq!(setting_key_from_name("max_iter"), Some(SettingKey::MaxIter));
    assert_eq!(setting_key_from_name("eps_dual_inf"), Some(SettingKey::EpsDualInf));
    assert_eq!(setting_key_from_name("use_quad_obj"), Some(SettingKey::UseQuadObj));
    assert_eq!(setting_key_from_name("Rho"), None);
    assert_eq!(setting_key_from_name("rho_min"), None);
}
