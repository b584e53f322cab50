use devflow_pro::ai_enhanced::{AIAnalysisResult, AIProvider};
use devflow_pro::detect::{
    detect_go_frameworks, detect_java_frameworks, detect_js_frameworks, detect_php_frameworks,
    detect_python_frameworks, detect_rust_frameworks, is_excluded_directory,
};
use devflow_pro::windsurf::ide::{update_status_bar, StatusBarItem};
use devflow_pro::windsurf::interface::{Interface, WindsurfIntegration, WindsurfIntegrationImpl};
use devflow_pro::windsurf::mock::{MockIntegration, TestProvider};
use devflow_pro::windsurf::ui::MetricsDisplay;
use devflow_pro::windsurf::{Position, Range, WindsurfConfig, WindsurfPlugin};

#[test]
fn test_windsurf_plugin() {
    let mut mock = MockIntegration::new(WindsurfPlugin::default());
    mock.initialize().unwrap();
    mock.set_current_file(Some("test.rs".to_string())).unwrap();
    mock.handle_text_change(&"fn main() {}".to_string()).unwrap();
    assert_eq!(mock.get_text_changes(), vec!["fn main() {}".to_string()]);
    assert_eq!(
        mock.get_current_file().unwrap(),
        Some("test.rs".to_string())
    );
    assert_eq!(mock.get_plugin().name, "Windsurf");
}

#[test]
fn test_integration() {
    let mut mock = MockIntegration::new(WindsurfPlugin::default());
    mock.handle_cursor_move(3, 7).unwrap();
    mock.handle_visible_range_change(Range {
        start: Position { line: 0, character: 0 },
        end: Position { line: 10, character: 0 },
    })
    .unwrap();
    let moves = mock.get_cursor_moves();
    assert_eq!(moves, vec![Position { line: 3, character: 7 }]);
    let ranges = mock.get_visible_ranges();
    assert_eq!(ranges.len(), 1);
    assert_eq!(ranges[0].end.line, 10);
}

#[test]
fn test_default_integration_state() {
    let integration = WindsurfIntegrationImpl::new(WindsurfPlugin::default()).unwrap();
    assert!(!integration.config.real_time_enabled);
    assert!(integration.current_file.is_none());
    let mut integration = integration;
    integration.toggle_real_time_analysis().unwrap();
    assert!(integration.get_config().unwrap().real_time_enabled);
    integration
        .set_config(WindsurfConfig { real_time_enabled: false })
        .unwrap();
    assert!(!integration.get_config().unwrap().real_time_enabled);
    integration.handle_text_change(&"text".to_string()).unwrap();
}

#[test]
fn test_status_bar_update() {
    let mut items: Vec<StatusBarItem> = Vec::new();
    update_status_bar(
        &mut items,
        &"metrics".to_string(),
        "C: 1".to_string(),
        None,
    );
    assert_eq!(items.len(), 1);
    assert_eq!(items[0].id, "metrics");
    assert_eq!(items[0].text, "C: 1");
    assert_eq!(
        items[0].command,
        Some("windsurf.showMetricsDetails".to_string())
    );

    update_status_bar(
        &mut items,
        &"metrics".to_string(),
        "C: 2".to_string(),
        Some("tooltip".to_string()),
    );
    assert_eq!(items.len(), 1);
    assert_eq!(items[0].text, "C: 2");
    assert_eq!(items[0].tooltip, Some("tooltip".to_string()));
    assert_eq!(
        items[0].command,
        Some("windsurf.showMetricsDetails".to_string())
    );
}

#[test]
fn test_metrics_display() {
    let mut provider = TestProvider;
    let answer: AIAnalysisResult = provider.analyze_code(&"x".to_string()).unwrap();
    let display = MetricsDisplay::new(&answer);
    assert_eq!(display.complexity_score, 50);
    assert_eq!(display.quality_score, 80);
    assert_eq!(display.to_status_bar_text(), "Complexity: 0.5 | Quality: 80.0");
}

#[test]
fn test_detect_frameworks() {
    assert_eq!(
        detect_js_frameworks(&"\"react\": \"18\", \"vue\": \"3\"".to_string()),
        vec!["React".to_string(), "Vue.js".to_string()]
    );
    assert_eq!(
        detect_rust_frameworks(&"tokio = \"1\"".to_string()),
        vec!["Tokio".to_string()]
    );
    assert_eq!(
        detect_python_frameworks(&"django==4.2\nflask".to_string()),
        vec!["Django".to_string(), "Flask".to_string()]
    );
    assert_eq!(
        detect_go_frameworks(&"require github.com/gin-gonic/gin".to_string()),
        vec!["Gin".to_string()]
    );
    assert_eq!(
        detect_php_frameworks(&"laravel/framework".to_string()),
        vec!["Laravel".to_string()]
    );
    assert_eq!(
        detect_java_frameworks(&"<groupId>org.springframework</groupId>".to_string()),
        vec!["Spring".to_string()]
    );
    assert!(is_excluded_directory(&"project/node_modules".to_string()));
    assert!(is_excluded_directory(&"target".to_string()));
    assert!(!is_excluded_directory(&"project/src".to_string()));
}

#[test]
fn test_mock_integration_defaults() {
    let mut mock = MockIntegration::new(WindsurfPlugin::default());
    assert_eq!(mock.get_current_file().unwrap(), None);
    assert_eq!(
        mock.get_config().unwrap(),
        WindsurfConfig { real_time_enabled: false }
    );
    assert_eq!(mock.get_plugin().version, "0.1.0");
    mock.set_config(WindsurfConfig { real_time_enabled: true }).unwrap();
    assert!(mock.get_config().unwrap().real_time_enabled);
}
