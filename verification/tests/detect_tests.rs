use web_scraper::detect::detect_sensitive_info;

const BASE: &str = "https://example.com";

#[test]
fn password_assignment_is_found() {
    let findings = detect_sensitive_info("\"password = Secret123!\"", BASE);
    assert!(findings.contains(&("密码".to_string(), "Secret123!".to_string())));
}

#[test]
fn quoted_cn_email_is_found_with_country() {
    let findings = detect_sensitive_info("\"user@example.cn\"", BASE);
    assert!(findings.contains(&("邮箱".to_string(), "user@example.cn (中国)".to_string())));
}

#[test]
fn quoted_mobile_number_is_found_with_operator() {
    let findings = detect_sensitive_info("\"13812345678\"", BASE);
    assert!(findings.contains(&("手机号".to_string(), "13812345678 (中国移动)".to_string())));
}

#[test]
fn telecom_and_unicom_prefixes() {
    let findings = detect_sensitive_info("\"13312345678\" \"13012345678\" \"19212345678\"", BASE);
    assert!(findings.contains(&("手机号".to_string(), "13312345678 (中国电信)".to_string())));
    assert!(findings.contains(&("手机号".to_string(), "13012345678 (中国联通)".to_string())));
    assert!(findings.contains(&("手机号".to_string(), "19212345678 (中国广电)".to_string())));
}

#[test]
fn aksk_assignment_is_found_and_rendered() {
    let findings = detect_sensitive_info("accessKey = \"A1b2C3d4E5f6G7h8\"", BASE);
    assert!(findings.contains(&("AK/SK".to_string(), "accessKey = A1b2C3d4E5f6G7h8".to_string())));
}

#[test]
fn aksk_without_keylike_name_is_not_found() {
    let findings = detect_sensitive_info("color = \"A1b2C3d4E5f6G7h8\"", BASE);
    assert!(findings.iter().all(|(c, _)| c != "AK/SK"));
}

#[test]
fn aksk_value_without_digit_is_not_found() {
    let findings = detect_sensitive_info("accessKey = \"abcdefghabcdefgh\"", BASE);
    assert!(findings.iter().all(|(c, _)| c != "AK/SK"));
}

#[test]
fn email_ending_in_static_extension_is_dropped() {
    let findings = detect_sensitive_info("\"icon@sprites.png\"", BASE);
    assert!(findings.iter().all(|(c, _)| c != "邮箱"));
}

#[test]
fn email_with_unknown_country() {
    let findings = detect_sensitive_info("\"dev@example.org\"", BASE);
    assert!(findings.contains(&("邮箱".to_string(), "dev@example.org (未知)".to_string())));
}

#[test]
fn token_finding_keeps_whole_match() {
    let findings = detect_sensitive_info("\"token abcdefgh12345678\"", BASE);
    assert!(findings.contains(&("Token".to_string(), "\"token abcdefgh12345678\"".to_string())));
}

#[test]
fn apikey_finding_keeps_key_only() {
    let findings = detect_sensitive_info("\"apikey abcdefgh12345678\"", BASE);
    assert!(findings.contains(&("APIKey".to_string(), "abcdefgh12345678".to_string())));
}

#[test]
fn jdbc_url_is_found() {
    let body = "\"jdbc:mysql://db.internal:3306/users\"";
    let findings = detect_sensitive_info(body, BASE);
    assert!(findings.contains(
        &("JDBC连接".to_string(), "jdbc:mysql://db.internal:3306/users".to_string())
    ));
}

#[test]
fn websocket_endpoint_is_found() {
    let findings = detect_sensitive_info("\"wss://push.example.com:8443/feed\"", BASE);
    assert!(findings.contains(
        &("WebSocket接口".to_string(), "wss://push.example.com:8443/feed".to_string())
    ));
}

#[test]
fn backup_and_config_paths_resolve_against_base() {
    let findings = detect_sensitive_info("'/dump/site.zip' 'app.config'", BASE);
    assert!(findings.contains(
        &("备份文件".to_string(), "https://example.com/dump/site.zip".to_string())
    ));
    assert!(findings.contains(
        &("配置文件".to_string(), "https://example.com/app.config".to_string())
    ));
}

#[test]
fn findings_are_not_deduplicated() {
    let findings = detect_sensitive_info("\"13812345678\" \"13812345678\"", BASE);
    let phones = findings.iter().filter(|(c, _)| c == "手机号").count();
    assert_eq!(phones, 2);
}
