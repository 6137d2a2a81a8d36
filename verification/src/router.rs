//! The demo application's routes: which page each path shows.
use vstd::prelude::*;
use crate::text::same_text;

verus! {

/// A page of the demo application.
#[derive(Clone, Copy, Debug, PartialEq, Eq, Structural)]
pub enum Page {
    About,
    Animation,
    CustomAttrs,
    Badge,
    ComponentBinding,
    Browser,
    Camera,
    Canvas,
    Conditional,
    Counter,
    DynamicComponent,
    Event,
    Form,
    HooksTiming,
    HooksAsync,
    HooksProtect,
    HooksI18n,
    Game2D,
    Game3D,
    KeepAlive,
    Lifecycle,
    Lighting,
    List,
    Modal,
    Observer,
    Raytrace,
    Sse,
    Select,
    Timer,
    FileUpload,
    VirtualList,
    Websocket,
    /// The page for a path that no other page answers.
    NotFound,
}

/// The page that `route` shows: `/` and `/about` show the about page, each
/// other known path its own page, and any other path the not-found page.
pub open spec fn route_page_spec(route: Seq<char>) -> Page {
    if route == "/"@ {
        Page::About
    } else if route == "/about"@ {
        Page::About
    } else if route == "/animation"@ {
        Page::Animation
    } else if route == "/custom-attrs"@ {
        Page::CustomAttrs
    } else if route == "/badge"@ {
        Page::Badge
    } else if route == "/component-binding"@ {
        Page::ComponentBinding
    } else if route == "/browser"@ {
        Page::Browser
    } else if route == "/camera"@ {
        Page::Camera
    } else if route == "/canvas"@ {
        Page::Canvas
    } else if route == "/conditional"@ {
        Page::Conditional
    } else if route == "/counter"@ {
        Page::Counter
    } else if route == "/dynamic-component"@ {
        Page::DynamicComponent
    } else if route == "/event"@ {
        Page::Event
    } else if route == "/form"@ {
        Page::Form
    } else if route == "/hooks-timing"@ {
        Page::HooksTiming
    } else if route == "/hooks-async"@ {
        Page::HooksAsync
    } else if route == "/hooks-protect"@ {
        Page::HooksProtect
    } else if route == "/hooks-i18n"@ {
        Page::HooksI18n
    } else if route == "/game-2d"@ {
        Page::Game2D
    } else if route == "/game-3d"@ {
        Page::Game3D
    } else if route == "/keep-alive"@ {
        Page::KeepAlive
    } else if route == "/lifecycle"@ {
        Page::Lifecycle
    } else if route == "/lighting"@ {
        Page::Lighting
    } else if route == "/list"@ {
        Page::List
    } else if route == "/modal"@ {
        Page::Modal
    } else if route == "/observer"@ {
        Page::Observer
    } else if route == "/raytrace"@ {
        Page::Raytrace
    } else if route == "/sse"@ {
        Page::Sse
    } else if route == "/select"@ {
        Page::Select
    } else if route == "/timer"@ {
        Page::Timer
    } else if route == "/file-upload"@ {
        Page::FileUpload
    } else if route == "/virtual-list"@ {
        Page::VirtualList
    } else if route == "/websocket"@ {
        Page::Websocket
    } else {
        Page::NotFound
    }
}

/// The page that `route` shows.
pub fn route_page(route: &str) -> (r: Page)
    ensures
        r == route_page_spec(route@),
{
    if same_text(route, "/") {
        Page::About
    } else if same_text(route, "/about") {
        Page::About
    } else if same_text(route, "/animation") {
        Page::Animation
    } else if same_text(route, "/custom-attrs") {
        Page::CustomAttrs
    } else if same_text(route, "/badge") {
        Page::Badge
    } else if same_text(route, "/component-binding") {
        Page::ComponentBinding
    } else if same_text(route, "/browser") {
        Page::Browser
    } else if same_text(route, "/camera") {
        Page::Camera
    } else if same_text(route, "/canvas") {
        Page::Canvas
    } else if same_text(route, "/conditional") {
        Page::Conditional
    } else if same_text(route, "/counter") {
        Page::Counter
    } else if same_text(route, "/dynamic-component") {
        Page::DynamicComponent
    } else if same_text(route, "/event") {
        Page::Event
    } else if same_text(route, "/form") {
        Page::Form
    } else if same_text(route, "/hooks-timing") {
        Page::HooksTiming
    } else if same_text(route, "/hooks-async") {
        Page::HooksAsync
    } else if same_text(route, "/hooks-protect") {
        Page::HooksProtect
    } else if same_text(route, "/hooks-i18n") {
        Page::HooksI18n
    } else if same_text(route, "/game-2d") {
        Page::Game2D
    } else if same_text(route, "/game-3d") {
        Page::Game3D
    } else if same_text(route, "/keep-alive") {
        Page::KeepAlive
    } else if same_text(route, "/lifecycle") {
        Page::Lifecycle
    } else if same_text(route, "/lighting") {
        Page::Lighting
    } else if same_text(route, "/list") {
        Page::List
    } else if same_text(route, "/modal") {
        Page::Modal
    } else if same_text(route, "/observer") {
        Page::Observer
    } else if same_text(route, "/raytrace") {
        Page::Raytrace
    } else if same_text(route, "/sse") {
        Page::Sse
    } else if same_text(route, "/select") {
        Page::Select
    } else if same_text(route, "/timer") {
        Page::Timer
    } else if same_text(route, "/file-upload") {
        Page::FileUpload
    } else if same_text(route, "/virtual-list") {
        Page::VirtualList
    } else if same_text(route, "/websocket") {
        Page::Websocket
    } else {
        Page::NotFound
    }
}

/// The path of each page: the route that names it.
pub open spec fn page_path(p: Page) -> Seq<char> {
    match p {
        Page::About => "/about"@,
        Page::Animation => "/animation"@,
        Page::CustomAttrs => "/custom-attrs"@,
        Page::Badge => "/badge"@,
        Page::ComponentBinding => "/component-binding"@,
        Page::Browser => "/browser"@,
        Page::Camera => "/camera"@,
        Page::Canvas => "/canvas"@,
        Page::Conditional => "/conditional"@,
        Page::Counter => "/counter"@,
        Page::DynamicComponent => "/dynamic-component"@,
        Page::Event => "/event"@,
        Page::Form => "/form"@,
        Page::HooksTiming => "/hooks-timing"@,
        Page::HooksAsync => "/hooks-async"@,
        Page::HooksProtect => "/hooks-protect"@,
        Page::HooksI18n => "/hooks-i18n"@,
        Page::Game2D => "/game-2d"@,
        Page::Game3D => "/game-3d"@,
        Page::KeepAlive => "/keep-alive"@,
        Page::Lifecycle => "/lifecycle"@,
        Page::Lighting => "/lighting"@,
        Page::List => "/list"@,
        Page::Modal => "/modal"@,
        Page::Observer => "/observer"@,
        Page::Raytrace => "/raytrace"@,
        Page::Sse => "/sse"@,
        Page::Select => "/select"@,
        Page::Timer => "/timer"@,
        Page::FileUpload => "/file-upload"@,
        Page::VirtualList => "/virtual-list"@,
        Page::Websocket => "/websocket"@,
        Page::NotFound => Seq::empty(),
    }
}

proof fn lemma_route_of_about()
    ensures
        route_page_spec(page_path(Page::About)) == Page::About,
{
    reveal_strlit("/about");
    reveal_strlit("/");
    assert(page_path(Page::About) == "/about"@);
    assert("/about"@ != "/"@);
}

proof fn lemma_route_of_animation()
    ensures
        route_page_spec(page_path(Page::Animation)) == Page::Animation,
{
    reveal_strlit("/animation");
    reveal_strlit("/");
    reveal_strlit("/about");
    assert(page_path(Page::Animation) == "/animation"@);
    assert("/animation"@ != "/"@);
    assert("/animation"@ != "/about"@);
}

proof fn lemma_route_of_custom_attrs()
    ensures
        route_page_spec(page_path(Page::CustomAttrs)) == Page::CustomAttrs,
{
    reveal_strlit("/custom-attrs");
    reveal_strlit("/");
    reveal_strlit("/about");
    reveal_strlit("/animation");
    assert(page_path(Page::CustomAttrs) == "/custom-attrs"@);
    assert("/custom-attrs"@ != "/"@);
    assert("/custom-attrs"@ != "/about"@);
    assert("/custom-attrs"@ != "/animation"@);
}

proof fn lemma_route_of_badge()
    ensures
        route_page_spec(page_path(Page::Badge)) == Page::Badge,
{
    reveal_strlit("/badge");
    reveal_strlit("/");
    reveal_strlit("/about");
    reveal_strlit("/animation");
    reveal_strlit("/custom-attrs");
    assert(page_path(Page::Badge) == "/badge"@);
    assert("/badge"@ != "/"@);
    assert("/badge"@[1] != "/about"@[1]);
    assert("/badge"@ != "/about"@);
    assert("/badge"@ != "/animation"@);
    assert("/badge"@ != "/custom-attrs"@);
}

proof fn lemma_route_of_component_binding()
    ensures
        route_page_spec(page_path(Page::ComponentBinding)) == Page::ComponentBinding,
{
    reveal_strlit("/component-binding");
    reveal_strlit("/");
    reveal_strlit("/about");
    reveal_strlit("/animation");
    reveal_strlit("/custom-attrs");
    reveal_strlit("/badge");
    assert(page_path(Page::ComponentBinding) == "/component-binding"@);
    assert("/component-binding"@ != "/"@);
    assert("/component-binding"@ != "/about"@);
    assert("/component-binding"@ != "/animation"@);
    assert("/component-binding"@ != "/custom-attrs"@);
    assert("/component-binding"@ != "/badge"@);
}

proof fn lemma_route_of_browser()
    ensures
        route_page_spec(page_path(Page::Browser)) == Page::Browser,
{
    reveal_strlit("/browser");
    reveal_strlit("/");
    reveal_strlit("/about");
    reveal_strlit("/animation");
    reveal_strlit("/custom-attrs");
    reveal_strlit("/badge");
    reveal_strlit("/component-binding");
    assert(page_path(Page::Browser) == "/browser"@);
    assert("/browser"@ != "/"@);
    assert("/browser"@ != "/about"@);
    assert("/browser"@ != "/animation"@);
    assert("/browser"@ != "/custom-attrs"@);
    assert("/browser"@ != "/badge"@);
    assert("/browser"@ != "/component-binding"@);
}

proof fn lemma_route_of_camera()
    ensures
        route_page_spec(page_path(Page::Camera)) == Page::Camera,
{
    reveal_strlit("/camera");
    reveal_strlit("/");
    reveal_strlit("/about");
    reveal_strlit("/animation");
    reveal_strlit("/custom-attrs");
    reveal_strlit("/badge");
    reveal_strlit("/component-binding");
    reveal_strlit("/browser");
    assert(page_path(Page::Camera) == "/camera"@);
    assert("/camera"@ != "/"@);
    assert("/camera"@ != "/about"@);
    assert("/camera"@ != "/animation"@);
    assert("/camera"@ != "/custom-attrs"@);
    assert("/camera"@ != "/badge"@);
    assert("/camera"@ != "/component-binding"@);
    assert("/camera"@ != "/browser"@);
}

proof fn lemma_route_of_canvas()
    ensures
        route_page_spec(page_path(Page::Canvas)) == Page::Canvas,
{
    reveal_strlit("/canvas");
    reveal_strlit("/");
    reveal_strlit("/about");
    reveal_strlit("/animation");
    reveal_strlit("/custom-attrs");
    reveal_strlit("/badge");
    reveal_strlit("/component-binding");
    reveal_strlit("/browser");
    reveal_strlit("/camera");
    assert(page_path(Page::Canvas) == "/canvas"@);
    assert("/canvas"@ != "/"@);
    assert("/canvas"@ != "/about"@);
    assert("/canvas"@ != "/animation"@);
    assert("/canvas"@ != "/custom-attrs"@);
    assert("/canvas"@ != "/badge"@);
    assert("/canvas"@ != "/component-binding"@);
    assert("/canvas"@ != "/browser"@);
    assert("/canvas"@[3] != "/camera"@[3]);
    assert("/canvas"@ != "/camera"@);
}

proof fn lemma_route_of_conditional()
    ensures
        route_page_spec(page_path(Page::Conditional)) == Page::Conditional,
{
    reveal_strlit("/conditional");
    reveal_strlit("/");
    reveal_strlit("/about");
    reveal_strlit("/animation");
    reveal_strlit("/custom-attrs");
    reveal_strlit("/badge");
    reveal_strlit("/component-binding");
    reveal_strlit("/browser");
    reveal_strlit("/camera");
    reveal_strlit("/canvas");
    assert(page_path(Page::Conditional) == "/conditional"@);
    assert("/conditional"@ != "/"@);
    assert("/conditional"@ != "/about"@);
    assert("/conditional"@ != "/animation"@);
    assert("/conditional"@ != "/custom-attrs"@);
    assert("/conditional"@ != "/badge"@);
    assert("/conditional"@ != "/component-binding"@);
    assert("/conditional"@ != "/browser"@);
    assert("/conditional"@ != "/camera"@);
    assert("/conditional"@ != "/canvas"@);
}

proof fn lemma_route_of_counter()
    ensures
        route_page_spec(page_path(Page::Counter)) == Page::Counter,
{
    reveal_strlit("/counter");
    reveal_strlit("/");
    reveal_strlit("/about");
    reveal_strlit("/animation");
    reveal_strlit("/custom-attrs");
    reveal_strlit("/badge");
    reveal_strlit("/component-binding");
    reveal_strlit("/browser");
    reveal_strlit("/camera");
    reveal_strlit("/canvas");
    reveal_strlit("/conditional");
    assert(page_path(Page::Counter) == "/counter"@);
    assert("/counter"@ != "/"@);
    assert("/counter"@ != "/about"@);
    assert("/counter"@ != "/animation"@);
    assert("/counter"@ != "/custom-attrs"@);
    assert("/counter"@ != "/badge"@);
    assert("/counter"@ != "/component-binding"@);
    assert("/counter"@[1] != "/browser"@[1]);
    assert("/counter"@ != "/browser"@);
    assert("/counter"@ != "/camera"@);
    assert("/counter"@ != "/canvas"@);
    assert("/counter"@ != "/conditional"@);
}

proof fn lemma_route_of_dynamic_component()
    ensures
        route_page_spec(page_path(Page::DynamicComponent)) == Page::DynamicComponent,
{
    reveal_strlit("/dynamic-component");
    reveal_strlit("/");
    reveal_strlit("/about");
    reveal_strlit("/animation");
    reveal_strlit("/custom-attrs");
    reveal_strlit("/badge");
    reveal_strlit("/component-binding");
    reveal_strlit("/browser");
    reveal_strlit("/camera");
    reveal_strlit("/canvas");
    reveal_strlit("/conditional");
    reveal_strlit("/counter");
    assert(page_path(Page::DynamicComponent) == "/dynamic-component"@);
    assert("/dynamic-component"@ != "/"@);
    assert("/dynamic-component"@ != "/about"@);
    assert("/dynamic-component"@ != "/animation"@);
    assert("/dynamic-component"@ != "/custom-attrs"@);
    assert("/dynamic-component"@ != "/badge"@);
    assert("/dynamic-component"@[1] != "/component-binding"@[1]);
    assert("/dynamic-component"@ != "/component-binding"@);
    assert("/dynamic-component"@ != "/browser"@);
    assert("/dynamic-component"@ != "/camera"@);
    assert("/dynamic-component"@ != "/canvas"@);
    assert("/dynamic-component"@ != "/conditional"@);
    assert("/dynamic-component"@ != "/counter"@);
}

proof fn lemma_route_of_event()
    ensures
        route_page_spec(page_path(Page::Event)) == Page::Event,
{
    reveal_strlit("/event");
    reveal_strlit("/");
    reveal_strlit("/about");
    reveal_strlit("/animation");
    reveal_strlit("/custom-attrs");
    reveal_strlit("/badge");
    reveal_strlit("/component-binding");
    reveal_strlit("/browser");
    reveal_strlit("/camera");
    reveal_strlit("/canvas");
    reveal_strlit("/conditional");
    reveal_strlit("/counter");
    reveal_strlit("/dynamic-component");
    assert(page_path(Page::Event) == "/event"@);
    assert("/event"@ != "/"@);
    assert("/event"@[1] != "/about"@[1]);
    assert("/event"@ != "/about"@);
    assert("/event"@ != "/animation"@);
    assert("/event"@ != "/custom-attrs"@);
    assert("/event"@[1] != "/badge"@[1]);
    assert("/event"@ != "/badge"@);
    assert("/event"@ != "/component-binding"@);
    assert("/event"@ != "/browser"@);
    assert("/event"@ != "/camera"@);
    assert("/event"@ != "/canvas"@);
    assert("/event"@ != "/conditional"@);
    assert("/event"@ != "/counter"@);
    assert("/event"@ != "/dynamic-component"@);
}

proof fn lemma_route_of_form()
    ensures
        route_page_spec(page_path(Page::Form)) == Page::Form,
{
    reveal_strlit("/form");
    reveal_strlit("/");
    reveal_strlit("/about");
    reveal_strlit("/animation");
    reveal_strlit("/custom-attrs");
    reveal_strlit("/badge");
    reveal_strlit("/component-binding");
    reveal_strlit("/browser");
    reveal_strlit("/camera");
    reveal_strlit("/canvas");
    reveal_strlit("/conditional");
    reveal_strlit("/counter");
    reveal_strlit("/dynamic-component");
    reveal_strlit("/event");
    assert(page_path(Page::Form) == "/form"@);
    assert("/form"@ != "/"@);
    assert("/form"@ != "/about"@);
    assert("/form"@ != "/animation"@);
    assert("/form"@ != "/custom-attrs"@);
    assert("/form"@ != "/badge"@);
    assert("/form"@ != "/component-binding"@);
    assert("/form"@ != "/browser"@);
    assert("/form"@ != "/camera"@);
    assert("/form"@ != "/canvas"@);
    assert("/form"@ != "/conditional"@);
    assert("/form"@ != "/counter"@);
    assert("/form"@ != "/dynamic-component"@);
    assert("/form"@ != "/event"@);
}

proof fn lemma_route_of_hooks_timing()
    ensures
        route_page_spec(page_path(Page::HooksTiming)) == Page::HooksTiming,
{
    reveal_strlit("/hooks-timing");
    reveal_strlit("/");
    reveal_strlit("/about");
    reveal_strlit("/animation");
    reveal_strlit("/custom-attrs");
    reveal_strlit("/badge");
    reveal_strlit("/component-binding");
    reveal_strlit("/browser");
    reveal_strlit("/camera");
    reveal_strlit("/canvas");
    reveal_strlit("/conditional");
    reveal_strlit("/counter");
    reveal_strlit("/dynamic-component");
    reveal_strlit("/event");
    reveal_strlit("/form");
    assert(page_path(Page::HooksTiming) == "/hooks-timing"@);
    assert("/hooks-timing"@ != "/"@);
    assert("/hooks-timing"@ != "/about"@);
    assert("/hooks-timing"@ != "/animation"@);
    assert("/hooks-timing"@[1] != "/custom-attrs"@[1]);
    assert("/hooks-timing"@ != "/custom-attrs"@);
    assert("/hooks-timing"@ != "/badge"@);
    assert("/hooks-timing"@ != "/component-binding"@);
    assert("/hooks-timing"@ != "/browser"@);
    assert("/hooks-timing"@ != "/camera"@);
    assert("/hooks-timing"@ != "/canvas"@);
    assert("/hooks-timing"@ != "/conditional"@);
    assert("/hooks-timing"@ != "/counter"@);
    assert("/hooks-timing"@ != "/dynamic-component"@);
    assert("/hooks-timing"@ != "/event"@);
    assert("/hooks-timing"@ != "/form"@);
}

proof fn lemma_route_of_hooks_async()
    ensures
        route_page_spec(page_path(Page::HooksAsync)) == Page::HooksAsync,
{
    reveal_strlit("/hooks-async");
    reveal_strlit("/");
    reveal_strlit("/about");
    reveal_strlit("/animation");
    reveal_strlit("/custom-attrs");
    reveal_strlit("/badge");
    reveal_strlit("/component-binding");
    reveal_strlit("/browser");
    reveal_strlit("/camera");
    reveal_strlit("/canvas");
    reveal_strlit("/conditional");
    reveal_strlit("/counter");
    reveal_strlit("/dynamic-component");
    reveal_strlit("/event");
    reveal_strlit("/form");
    reveal_strlit("/hooks-timing");
    assert(page_path(Page::HooksAsync) == "/hooks-async"@);
    assert("/hooks-async"@ != "/"@);
    assert("/hooks-async"@ != "/about"@);
    assert("/hooks-async"@ != "/animation"@);
    assert("/hooks-async"@ != "/custom-attrs"@);
    assert("/hooks-async"@ != "/badge"@);
    assert("/hooks-async"@ != "/component-binding"@);
    assert("/hooks-async"@ != "/browser"@);
    assert("/hooks-async"@ != "/camera"@);
    assert("/hooks-async"@ != "/canvas"@);
    assert("/hooks-async"@[1] != "/conditional"@[1]);
    assert("/hooks-async"@ != "/conditional"@);
    assert("/hooks-async"@ != "/counter"@);
    assert("/hooks-async"@ != "/dynamic-component"@);
    assert("/hooks-async"@ != "/event"@);
    assert("/hooks-async"@ != "/form"@);
    assert("/hooks-async"@ != "/hooks-timing"@);
}

proof fn lemma_route_of_hooks_protect()
    ensures
        route_page_spec(page_path(Page::HooksProtect)) == Page::HooksProtect,
{
    reveal_strlit("/hooks-protect");
    reveal_strlit("/");
    reveal_strlit("/about");
    reveal_strlit("/animation");
    reveal_strlit("/custom-attrs");
    reveal_strlit("/badge");
    reveal_strlit("/component-binding");
    reveal_strlit("/browser");
    reveal_strlit("/camera");
    reveal_strlit("/canvas");
    reveal_strlit("/conditional");
    reveal_strlit("/counter");
    reveal_strlit("/dynamic-component");
    reveal_strlit("/event");
    reveal_strlit("/form");
    reveal_strlit("/hooks-timing");
    reveal_strlit("/hooks-async");
    assert(page_path(Page::HooksProtect) == "/hooks-protect"@);
    assert("/hooks-protect"@ != "/"@);
    assert("/hooks-protect"@ != "/about"@);
    assert("/hooks-protect"@ != "/animation"@);
    assert("/hooks-protect"@ != "/custom-attrs"@);
    assert("/hooks-protect"@ != "/badge"@);
    assert("/hooks-protect"@ != "/component-binding"@);
    assert("/hooks-protect"@ != "/browser"@);
    assert("/hooks-protect"@ != "/camera"@);
    assert("/hooks-protect"@ != "/canvas"@);
    assert("/hooks-protect"@ != "/conditional"@);
    assert("/hooks-protect"@ != "/counter"@);
    assert("/hooks-protect"@ != "/dynamic-component"@);
    assert("/hooks-protect"@ != "/event"@);
    assert("/hooks-protect"@ != "/form"@);
    assert("/hooks-protect"@ != "/hooks-timing"@);
    assert("/hooks-protect"@ != "/hooks-async"@);
}

proof fn lemma_route_of_hooks_i18n()
    ensures
        route_page_spec(page_path(Page::HooksI18n)) == Page::HooksI18n,
{
    reveal_strlit("/hooks-i18n");
    reveal_strlit("/");
    reveal_strlit("/about");
    reveal_strlit("/animation");
    reveal_strlit("/custom-attrs");
    reveal_strlit("/badge");
    reveal_strlit("/component-binding");
    reveal_strlit("/browser");
    reveal_strlit("/camera");
    reveal_strlit("/canvas");
    reveal_strlit("/conditional");
    reveal_strlit("/counter");
    reveal_strlit("/dynamic-component");
    reveal_strlit("/event");
    reveal_strlit("/form");
    reveal_strlit("/hooks-timing");
    reveal_strlit("/hooks-async");
    reveal_strlit("/hooks-protect");
    assert(page_path(Page::HooksI18n) == "/hooks-i18n"@);
    assert("/hooks-i18n"@ != "/"@);
    assert("/hooks-i18n"@ != "/about"@);
    assert("/hooks-i18n"@ != "/animation"@);
    assert("/hooks-i18n"@ != "/custom-attrs"@);
    assert("/hooks-i18n"@ != "/badge"@);
    assert("/hooks-i18n"@ != "/component-binding"@);
    assert("/hooks-i18n"@ != "/browser"@);
    assert("/hooks-i18n"@ != "/camera"@);
    assert("/hooks-i18n"@ != "/canvas"@);
    assert("/hooks-i18n"@ != "/conditional"@);
    assert("/hooks-i18n"@ != "/counter"@);
    assert("/hooks-i18n"@ != "/dynamic-component"@);
    assert("/hooks-i18n"@ != "/event"@);
    assert("/hooks-i18n"@ != "/form"@);
    assert("/hooks-i18n"@ != "/hooks-timing"@);
    assert("/hooks-i18n"@ != "/hooks-async"@);
    assert("/hooks-i18n"@ != "/hooks-protect"@);
}

proof fn lemma_route_of_game2d()
    ensures
        route_page_spec(page_path(Page::Game2D)) == Page::Game2D,
{
    reveal_strlit("/game-2d");
    reveal_strlit("/");
    reveal_strlit("/about");
    reveal_strlit("/animation");
    reveal_strlit("/custom-attrs");
    reveal_strlit("/badge");
    reveal_strlit("/component-binding");
    reveal_strlit("/browser");
    reveal_strlit("/camera");
    reveal_strlit("/canvas");
    reveal_strlit("/conditional");
    reveal_strlit("/counter");
    reveal_strlit("/dynamic-component");
    reveal_strlit("/event");
    reveal_strlit("/form");
    reveal_strlit("/hooks-timing");
    reveal_strlit("/hooks-async");
    reveal_strlit("/hooks-protect");
    reveal_strlit("/hooks-i18n");
    assert(page_path(Page::Game2D) == "/game-2d"@);
    assert("/game-2d"@ != "/"@);
    assert("/game-2d"@ != "/about"@);
    assert("/game-2d"@ != "/animation"@);
    assert("/game-2d"@ != "/custom-attrs"@);
    assert("/game-2d"@ != "/badge"@);
    assert("/game-2d"@ != "/component-binding"@);
    assert("/game-2d"@[1] != "/browser"@[1]);
    assert("/game-2d"@ != "/browser"@);
    assert("/game-2d"@ != "/camera"@);
    assert("/game-2d"@ != "/canvas"@);
    assert("/game-2d"@ != "/conditional"@);
    assert("/game-2d"@[1] != "/counter"@[1]);
    assert("/game-2d"@ != "/counter"@);
    assert("/game-2d"@ != "/dynamic-component"@);
    assert("/game-2d"@ != "/event"@);
    assert("/game-2d"@ != "/form"@);
    assert("/game-2d"@ != "/hooks-timing"@);
    assert("/game-2d"@ != "/hooks-async"@);
    assert("/game-2d"@ != "/hooks-protect"@);
    assert("/game-2d"@ != "/hooks-i18n"@);
}

proof fn lemma_route_of_game3d()
    ensures
        route_page_spec(page_path(Page::Game3D)) == Page::Game3D,
{
    reveal_strlit("/game-3d");
    reveal_strlit("/");
    reveal_strlit("/about");
    reveal_strlit("/animation");
    reveal_strlit("/custom-attrs");
    reveal_strlit("/badge");
    reveal_strlit("/component-binding");
    reveal_strlit("/browser");
    reveal_strlit("/camera");
    reveal_strlit("/canvas");
    reveal_strlit("/conditional");
    reveal_strlit("/counter");
    reveal_strlit("/dynamic-component");
    reveal_strlit("/event");
    reveal_strlit("/form");
    reveal_strlit("/hooks-timing");
    reveal_strlit("/hooks-async");
    reveal_strlit("/hooks-protect");
    reveal_strlit("/hooks-i18n");
    reveal_strlit("/game-2d");
    assert(page_path(Page::Game3D) == "/game-3d"@);
    assert("/game-3d"@ != "/"@);
    assert("/game-3d"@ != "/about"@);
    assert("/game-3d"@ != "/animation"@);
    assert("/game-3d"@ != "/custom-attrs"@);
    assert("/game-3d"@ != "/badge"@);
    assert("/game-3d"@ != "/component-binding"@);
    assert("/game-3d"@[1] != "/browser"@[1]);
    assert("/game-3d"@ != "/browser"@);
    assert("/game-3d"@ != "/camera"@);
    assert("/game-3d"@ != "/canvas"@);
    assert("/game-3d"@ != "/conditional"@);
    assert("/game-3d"@[1] != "/counter"@[1]);
    assert("/game-3d"@ != "/counter"@);
    assert("/game-3d"@ != "/dynamic-component"@);
    assert("/game-3d"@ != "/event"@);
    assert("/game-3d"@ != "/form"@);
    assert("/game-3d"@ != "/hooks-timing"@);
    assert("/game-3d"@ != "/hooks-async"@);
    assert("/game-3d"@ != "/hooks-protect"@);
    assert("/game-3d"@ != "/hooks-i18n"@);
    assert("/game-3d"@[6] != "/game-2d"@[6]);
    assert("/game-3d"@ != "/game-2d"@);
}

proof fn lemma_route_of_keep_alive()
    ensures
        route_page_spec(page_path(Page::KeepAlive)) == Page::KeepAlive,
{
    reveal_strlit("/keep-alive");
    reveal_strlit("/");
    reveal_strlit("/about");
    reveal_strlit("/animation");
    reveal_strlit("/custom-attrs");
    reveal_strlit("/badge");
    reveal_strlit("/component-binding");
    reveal_strlit("/browser");
    reveal_strlit("/camera");
    reveal_strlit("/canvas");
    reveal_strlit("/conditional");
    reveal_strlit("/counter");
    reveal_strlit("/dynamic-component");
    reveal_strlit("/event");
    reveal_strlit("/form");
    reveal_strlit("/hooks-timing");
    reveal_strlit("/hooks-async");
    reveal_strlit("/hooks-protect");
    reveal_strlit("/hooks-i18n");
    reveal_strlit("/game-2d");
    reveal_strlit("/game-3d");
    assert(page_path(Page::KeepAlive) == "/keep-alive"@);
    assert("/keep-alive"@ != "/"@);
    assert("/keep-alive"@ != "/about"@);
    assert("/keep-alive"@ != "/animation"@);
    assert("/keep-alive"@ != "/custom-attrs"@);
    assert("/keep-alive"@ != "/badge"@);
    assert("/keep-alive"@ != "/component-binding"@);
    assert("/keep-alive"@ != "/browser"@);
    assert("/keep-alive"@ != "/camera"@);
    assert("/keep-alive"@ != "/canvas"@);
    assert("/keep-alive"@ != "/conditional"@);
    assert("/keep-alive"@ != "/counter"@);
    assert("/keep-alive"@ != "/dynamic-component"@);
    assert("/keep-alive"@ != "/event"@);
    assert("/keep-alive"@ != "/form"@);
    assert("/keep-alive"@ != "/hooks-timing"@);
    assert("/keep-alive"@ != "/hooks-async"@);
    assert("/keep-alive"@ != "/hooks-protect"@);
    assert("/keep-alive"@[1] != "/hooks-i18n"@[1]);
    assert("/keep-alive"@ != "/hooks-i18n"@);
    assert("/keep-alive"@ != "/game-2d"@);
    assert("/keep-alive"@ != "/game-3d"@);
}

proof fn lemma_route_of_lifecycle()
    ensures
        route_page_spec(page_path(Page::Lifecycle)) == Page::Lifecycle,
{
    reveal_strlit("/lifecycle");
    reveal_strlit("/");
    reveal_strlit("/about");
    reveal_strlit("/animation");
    reveal_strlit("/custom-attrs");
    reveal_strlit("/badge");
    reveal_strlit("/component-binding");
    reveal_strlit("/browser");
    reveal_strlit("/camera");
    reveal_strlit("/canvas");
    reveal_strlit("/conditional");
    reveal_strlit("/counter");
    reveal_strlit("/dynamic-component");
    reveal_strlit("/event");
    reveal_strlit("/form");
    reveal_strlit("/hooks-timing");
    reveal_strlit("/hooks-async");
    reveal_strlit("/hooks-protect");
    reveal_strlit("/hooks-i18n");
    reveal_strlit("/game-2d");
    reveal_strlit("/game-3d");
    reveal_strlit("/keep-alive");
    assert(page_path(Page::Lifecycle) == "/lifecycle"@);
    assert("/lifecycle"@ != "/"@);
    assert("/lifecycle"@ != "/about"@);
    assert("/lifecycle"@[1] != "/animation"@[1]);
    assert("/lifecycle"@ != "/animation"@);
    assert("/lifecycle"@ != "/custom-attrs"@);
    assert("/lifecycle"@ != "/badge"@);
    assert("/lifecycle"@ != "/component-binding"@);
    assert("/lifecycle"@ != "/browser"@);
    assert("/lifecycle"@ != "/camera"@);
    assert("/lifecycle"@ != "/canvas"@);
    assert("/lifecycle"@ != "/conditional"@);
    assert("/lifecycle"@ != "/counter"@);
    assert("/lifecycle"@ != "/dynamic-component"@);
    assert("/lifecycle"@ != "/event"@);
    assert("/lifecycle"@ != "/form"@);
    assert("/lifecycle"@ != "/hooks-timing"@);
    assert("/lifecycle"@ != "/hooks-async"@);
    assert("/lifecycle"@ != "/hooks-protect"@);
    assert("/lifecycle"@ != "/hooks-i18n"@);
    assert("/lifecycle"@ != "/game-2d"@);
    assert("/lifecycle"@ != "/game-3d"@);
    assert("/lifecycle"@ != "/keep-alive"@);
}

proof fn lemma_route_of_lighting()
    ensures
        route_page_spec(page_path(Page::Lighting)) == Page::Lighting,
{
    reveal_strlit("/lighting");
    reveal_strlit("/");
    reveal_strlit("/about");
    reveal_strlit("/animation");
    reveal_strlit("/custom-attrs");
    reveal_strlit("/badge");
    reveal_strlit("/component-binding");
    reveal_strlit("/browser");
    reveal_strlit("/camera");
    reveal_strlit("/canvas");
    reveal_strlit("/conditional");
    reveal_strlit("/counter");
    reveal_strlit("/dynamic-component");
    reveal_strlit("/event");
    reveal_strlit("/form");
    reveal_strlit("/hooks-timing");
    reveal_strlit("/hooks-async");
    reveal_strlit("/hooks-protect");
    reveal_strlit("/hooks-i18n");
    reveal_strlit("/game-2d");
    reveal_strlit("/game-3d");
    reveal_strlit("/keep-alive");
    reveal_strlit("/lifecycle");
    assert(page_path(Page::Lighting) == "/lighting"@);
    assert("/lighting"@ != "/"@);
    assert("/lighting"@ != "/about"@);
    assert("/lighting"@ != "/animation"@);
    assert("/lighting"@ != "/custom-attrs"@);
    assert("/lighting"@ != "/badge"@);
    assert("/lighting"@ != "/component-binding"@);
    assert("/lighting"@ != "/browser"@);
    assert("/lighting"@ != "/camera"@);
    assert("/lighting"@ != "/canvas"@);
    assert("/lighting"@ != "/conditional"@);
    assert("/lighting"@ != "/counter"@);
    assert("/lighting"@ != "/dynamic-component"@);
    assert("/lighting"@ != "/event"@);
    assert("/lighting"@ != "/form"@);
    assert("/lighting"@ != "/hooks-timing"@);
    assert("/lighting"@ != "/hooks-async"@);
    assert("/lighting"@ != "/hooks-protect"@);
    assert("/lighting"@ != "/hooks-i18n"@);
    assert("/lighting"@ != "/game-2d"@);
    assert("/lighting"@ != "/game-3d"@);
    assert("/lighting"@ != "/keep-alive"@);
    assert("/lighting"@ != "/lifecycle"@);
}

proof fn lemma_route_of_list()
    ensures
        route_page_spec(page_path(Page::List)) == Page::List,
{
    reveal_strlit("/list");
    reveal_strlit("/");
    reveal_strlit("/about");
    reveal_strlit("/animation");
    reveal_strlit("/custom-attrs");
    reveal_strlit("/badge");
    reveal_strlit("/component-binding");
    reveal_strlit("/browser");
    reveal_strlit("/camera");
    reveal_strlit("/canvas");
    reveal_strlit("/conditional");
    reveal_strlit("/counter");
    reveal_strlit("/dynamic-component");
    reveal_strlit("/event");
    reveal_strlit("/form");
    reveal_strlit("/hooks-timing");
    reveal_strlit("/hooks-async");
    reveal_strlit("/hooks-protect");
    reveal_strlit("/hooks-i18n");
    reveal_strlit("/game-2d");
    reveal_strlit("/game-3d");
    reveal_strlit("/keep-alive");
    reveal_strlit("/lifecycle");
    reveal_strlit("/lighting");
    assert(page_path(Page::List) == "/list"@);
    assert("/list"@ != "/"@);
    assert("/list"@ != "/about"@);
    assert("/list"@ != "/animation"@);
    assert("/list"@ != "/custom-attrs"@);
    assert("/list"@ != "/badge"@);
    assert("/list"@ != "/component-binding"@);
    assert("/list"@ != "/browser"@);
    assert("/list"@ != "/camera"@);
    assert("/list"@ != "/canvas"@);
    assert("/list"@ != "/conditional"@);
    assert("/list"@ != "/counter"@);
    assert("/list"@ != "/dynamic-component"@);
    assert("/list"@ != "/event"@);
    assert("/list"@[1] != "/form"@[1]);
    assert("/list"@ != "/form"@);
    assert("/list"@ != "/hooks-timing"@);
    assert("/list"@ != "/hooks-async"@);
    assert("/list"@ != "/hooks-protect"@);
    assert("/list"@ != "/hooks-i18n"@);
    assert("/list"@ != "/game-2d"@);
    assert("/list"@ != "/game-3d"@);
    assert("/list"@ != "/keep-alive"@);
    assert("/list"@ != "/lifecycle"@);
    assert("/list"@ != "/lighting"@);
}

proof fn lemma_route_of_modal()
    ensures
        route_page_spec(page_path(Page::Modal)) == Page::Modal,
{
    reveal_strlit("/modal");
    reveal_strlit("/");
    reveal_strlit("/about");
    reveal_strlit("/animation");
    reveal_strlit("/custom-attrs");
    reveal_strlit("/badge");
    reveal_strlit("/component-binding");
    reveal_strlit("/browser");
    reveal_strlit("/camera");
    reveal_strlit("/canvas");
    reveal_strlit("/conditional");
    reveal_strlit("/counter");
    reveal_strlit("/dynamic-component");
    reveal_strlit("/event");
    reveal_strlit("/form");
    reveal_strlit("/hooks-timing");
    reveal_strlit("/hooks-async");
    reveal_strlit("/hooks-protect");
    reveal_strlit("/hooks-i18n");
    reveal_strlit("/game-2d");
    reveal_strlit("/game-3d");
    reveal_strlit("/keep-alive");
    reveal_strlit("/lifecycle");
    reveal_strlit("/lighting");
    reveal_strlit("/list");
    assert(page_path(Page::Modal) == "/modal"@);
    assert("/modal"@ != "/"@);
    assert("/modal"@[1] != "/about"@[1]);
    assert("/modal"@ != "/about"@);
    assert("/modal"@ != "/animation"@);
    assert("/modal"@ != "/custom-attrs"@);
    assert("/modal"@[1] != "/badge"@[1]);
    assert("/modal"@ != "/badge"@);
    assert("/modal"@ != "/component-binding"@);
    assert("/modal"@ != "/browser"@);
    assert("/modal"@ != "/camera"@);
    assert("/modal"@ != "/canvas"@);
    assert("/modal"@ != "/conditional"@);
    assert("/modal"@ != "/counter"@);
    assert("/modal"@ != "/dynamic-component"@);
    assert("/modal"@[1] != "/event"@[1]);
    assert("/modal"@ != "/event"@);
    assert("/modal"@ != "/form"@);
    assert("/modal"@ != "/hooks-timing"@);
    assert("/modal"@ != "/hooks-async"@);
    assert("/modal"@ != "/hooks-protect"@);
    assert("/modal"@ != "/hooks-i18n"@);
    assert("/modal"@ != "/game-2d"@);
    assert("/modal"@ != "/game-3d"@);
    assert("/modal"@ != "/keep-alive"@);
    assert("/modal"@ != "/lifecycle"@);
    assert("/modal"@ != "/lighting"@);
    assert("/modal"@ != "/list"@);
}

proof fn lemma_route_of_observer()
    ensures
        route_page_spec(page_path(Page::Observer)) == Page::Observer,
{
    reveal_strlit("/observer");
    reveal_strlit("/");
    reveal_strlit("/about");
    reveal_strlit("/animation");
    reveal_strlit("/custom-attrs");
    reveal_strlit("/badge");
    reveal_strlit("/component-binding");
    reveal_strlit("/browser");
    reveal_strlit("/camera");
    reveal_strlit("/canvas");
    reveal_strlit("/conditional");
    reveal_strlit("/counter");
    reveal_strlit("/dynamic-component");
    reveal_strlit("/event");
    reveal_strlit("/form");
    reveal_strlit("/hooks-timing");
    reveal_strlit("/hooks-async");
    reveal_strlit("/hooks-protect");
    reveal_strlit("/hooks-i18n");
    reveal_strlit("/game-2d");
    reveal_strlit("/game-3d");
    reveal_strlit("/keep-alive");
    reveal_strlit("/lifecycle");
    reveal_strlit("/lighting");
    reveal_strlit("/list");
    reveal_strlit("/modal");
    assert(page_path(Page::Observer) == "/observer"@);
    assert("/observer"@ != "/"@);
    assert("/observer"@ != "/about"@);
    assert("/observer"@ != "/animation"@);
    assert("/observer"@ != "/custom-attrs"@);
    assert("/observer"@ != "/badge"@);
    assert("/observer"@ != "/component-binding"@);
    assert("/observer"@ != "/browser"@);
    assert("/observer"@ != "/camera"@);
    assert("/observer"@ != "/canvas"@);
    assert("/observer"@ != "/conditional"@);
    assert("/observer"@ != "/counter"@);
    assert("/observer"@ != "/dynamic-component"@);
    assert("/observer"@ != "/event"@);
    assert("/observer"@ != "/form"@);
    assert("/observer"@ != "/hooks-timing"@);
    assert("/observer"@ != "/hooks-async"@);
    assert("/observer"@ != "/hooks-protect"@);
    assert("/observer"@ != "/hooks-i18n"@);
    assert("/observer"@ != "/game-2d"@);
    assert("/observer"@ != "/game-3d"@);
    assert("/observer"@ != "/keep-alive"@);
    assert("/observer"@ != "/lifecycle"@);
    assert("/observer"@[1] != "/lighting"@[1]);
    assert("/observer"@ != "/lighting"@);
    assert("/observer"@ != "/list"@);
    assert("/observer"@ != "/modal"@);
}

proof fn lemma_route_of_raytrace()
    ensures
        route_page_spec(page_path(Page::Raytrace)) == Page::Raytrace,
{
    reveal_strlit("/raytrace");
    reveal_strlit("/");
    reveal_strlit("/about");
    reveal_strlit("/animation");
    reveal_strlit("/custom-attrs");
    reveal_strlit("/badge");
    reveal_strlit("/component-binding");
    reveal_strlit("/browser");
    reveal_strlit("/camera");
    reveal_strlit("/canvas");
    reveal_strlit("/conditional");
    reveal_strlit("/counter");
    reveal_strlit("/dynamic-component");
    reveal_strlit("/event");
    reveal_strlit("/form");
    reveal_strlit("/hooks-timing");
    reveal_strlit("/hooks-async");
    reveal_strlit("/hooks-protect");
    reveal_strlit("/hooks-i18n");
    reveal_strlit("/game-2d");
    reveal_strlit("/game-3d");
    reveal_strlit("/keep-alive");
    reveal_strlit("/lifecycle");
    reveal_strlit("/lighting");
    reveal_strlit("/list");
    reveal_strlit("/modal");
    reveal_strlit("/observer");
    assert(page_path(Page::Raytrace) == "/raytrace"@);
    assert("/raytrace"@ != "/"@);
    assert("/raytrace"@ != "/about"@);
    assert("/raytrace"@ != "/animation"@);
    assert("/raytrace"@ != "/custom-attrs"@);
    assert("/raytrace"@ != "/badge"@);
    assert("/raytrace"@ != "/component-binding"@);
    assert("/raytrace"@ != "/browser"@);
    assert("/raytrace"@ != "/camera"@);
    assert("/raytrace"@ != "/canvas"@);
    assert("/raytrace"@ != "/conditional"@);
    assert("/raytrace"@ != "/counter"@);
    assert("/raytrace"@ != "/dynamic-component"@);
    assert("/raytrace"@ != "/event"@);
    assert("/raytrace"@ != "/form"@);
    assert("/raytrace"@ != "/hooks-timing"@);
    assert("/raytrace"@ != "/hooks-async"@);
    assert("/raytrace"@ != "/hooks-protect"@);
    assert("/raytrace"@ != "/hooks-i18n"@);
    assert("/raytrace"@ != "/game-2d"@);
    assert("/raytrace"@ != "/game-3d"@);
    assert("/raytrace"@ != "/keep-alive"@);
    assert("/raytrace"@ != "/lifecycle"@);
    assert("/raytrace"@[1] != "/lighting"@[1]);
    assert("/raytrace"@ != "/lighting"@);
    assert("/raytrace"@ != "/list"@);
    assert("/raytrace"@ != "/modal"@);
    assert("/raytrace"@[1] != "/observer"@[1]);
    assert("/raytrace"@ != "/observer"@);
}

proof fn lemma_route_of_sse()
    ensures
        route_page_spec(page_path(Page::Sse)) == Page::Sse,
{
    reveal_strlit("/sse");
    reveal_strlit("/");
    reveal_strlit("/about");
    reveal_strlit("/animation");
    reveal_strlit("/custom-attrs");
    reveal_strlit("/badge");
    reveal_strlit("/component-binding");
    reveal_strlit("/browser");
    reveal_strlit("/camera");
    reveal_strlit("/canvas");
    reveal_strlit("/conditional");
    reveal_strlit("/counter");
    reveal_strlit("/dynamic-component");
    reveal_strlit("/event");
    reveal_strlit("/form");
    reveal_strlit("/hooks-timing");
    reveal_strlit("/hooks-async");
    reveal_strlit("/hooks-protect");
    reveal_strlit("/hooks-i18n");
    reveal_strlit("/game-2d");
    reveal_strlit("/game-3d");
    reveal_strlit("/keep-alive");
    reveal_strlit("/lifecycle");
    reveal_strlit("/lighting");
    reveal_strlit("/list");
    reveal_strlit("/modal");
    reveal_strlit("/observer");
    reveal_strlit("/raytrace");
    assert(page_path(Page::Sse) == "/sse"@);
    assert("/sse"@ != "/"@);
    assert("/sse"@ != "/about"@);
    assert("/sse"@ != "/animation"@);
    assert("/sse"@ != "/custom-attrs"@);
    assert("/sse"@ != "/badge"@);
    assert("/sse"@ != "/component-binding"@);
    assert("/sse"@ != "/browser"@);
    assert("/sse"@ != "/camera"@);
    assert("/sse"@ != "/canvas"@);
    assert("/sse"@ != "/conditional"@);
    assert("/sse"@ != "/counter"@);
    assert("/sse"@ != "/dynamic-component"@);
    assert("/sse"@ != "/event"@);
    assert("/sse"@ != "/form"@);
    assert("/sse"@ != "/hooks-timing"@);
    assert("/sse"@ != "/hooks-async"@);
    assert("/sse"@ != "/hooks-protect"@);
    assert("/sse"@ != "/hooks-i18n"@);
    assert("/sse"@ != "/game-2d"@);
    assert("/sse"@ != "/game-3d"@);
    assert("/sse"@ != "/keep-alive"@);
    assert("/sse"@ != "/lifecycle"@);
    assert("/sse"@ != "/lighting"@);
    assert("/sse"@ != "/list"@);
    assert("/sse"@ != "/modal"@);
    assert("/sse"@ != "/observer"@);
    assert("/sse"@ != "/raytrace"@);
}

proof fn lemma_route_of_select()
    ensures
        route_page_spec(page_path(Page::Select)) == Page::Select,
{
    reveal_strlit("/select");
    reveal_strlit("/");
    reveal_strlit("/about");
    reveal_strlit("/animation");
    reveal_strlit("/custom-attrs");
    reveal_strlit("/badge");
    reveal_strlit("/component-binding");
    reveal_strlit("/browser");
    reveal_strlit("/camera");
    reveal_strlit("/canvas");
    reveal_strlit("/conditional");
    reveal_strlit("/counter");
    reveal_strlit("/dynamic-component");
    reveal_strlit("/event");
    reveal_strlit("/form");
    reveal_strlit("/hooks-timing");
    reveal_strlit("/hooks-async");
    reveal_strlit("/hooks-protect");
    reveal_strlit("/hooks-i18n");
    reveal_strlit("/game-2d");
    reveal_strlit("/game-3d");
    reveal_strlit("/keep-alive");
    reveal_strlit("/lifecycle");
    reveal_strlit("/lighting");
    reveal_strlit("/list");
    reveal_strlit("/modal");
    reveal_strlit("/observer");
    reveal_strlit("/raytrace");
    reveal_strlit("/sse");
    assert(page_path(Page::Select) == "/select"@);
    assert("/select"@ != "/"@);
    assert("/select"@ != "/about"@);
    assert("/select"@ != "/animation"@);
    assert("/select"@ != "/custom-attrs"@);
    assert("/select"@ != "/badge"@);
    assert("/select"@ != "/component-binding"@);
    assert("/select"@ != "/browser"@);
    assert("/select"@[1] != "/camera"@[1]);
    assert("/select"@ != "/camera"@);
    assert("/select"@[1] != "/canvas"@[1]);
    assert("/select"@ != "/canvas"@);
    assert("/select"@ != "/conditional"@);
    assert("/select"@ != "/counter"@);
    assert("/select"@ != "/dynamic-component"@);
    assert("/select"@ != "/event"@);
    assert("/select"@ != "/form"@);
    assert("/select"@ != "/hooks-timing"@);
    assert("/select"@ != "/hooks-async"@);
    assert("/select"@ != "/hooks-protect"@);
    assert("/select"@ != "/hooks-i18n"@);
    assert("/select"@ != "/game-2d"@);
    assert("/select"@ != "/game-3d"@);
    assert("/select"@ != "/keep-alive"@);
    assert("/select"@ != "/lifecycle"@);
    assert("/select"@ != "/lighting"@);
    assert("/select"@ != "/list"@);
    assert("/select"@ != "/modal"@);
    assert("/select"@ != "/observer"@);
    assert("/select"@ != "/raytrace"@);
    assert("/select"@ != "/sse"@);
}

proof fn lemma_route_of_timer()
    ensures
        route_page_spec(page_path(Page::Timer)) == Page::Timer,
{
    reveal_strlit("/timer");
    reveal_strlit("/");
    reveal_strlit("/about");
    reveal_strlit("/animation");
    reveal_strlit("/custom-attrs");
    reveal_strlit("/badge");
    reveal_strlit("/component-binding");
    reveal_strlit("/browser");
    reveal_strlit("/camera");
    reveal_strlit("/canvas");
    reveal_strlit("/conditional");
    reveal_strlit("/counter");
    reveal_strlit("/dynamic-component");
    reveal_strlit("/event");
    reveal_strlit("/form");
    reveal_strlit("/hooks-timing");
    reveal_strlit("/hooks-async");
    reveal_strlit("/hooks-protect");
    reveal_strlit("/hooks-i18n");
    reveal_strlit("/game-2d");
    reveal_strlit("/game-3d");
    reveal_strlit("/keep-alive");
    reveal_strlit("/lifecycle");
    reveal_strlit("/lighting");
    reveal_strlit("/list");
    reveal_strlit("/modal");
    reveal_strlit("/observer");
    reveal_strlit("/raytrace");
    reveal_strlit("/sse");
    reveal_strlit("/select");
    assert(page_path(Page::Timer) == "/timer"@);
    assert("/timer"@ != "/"@);
    assert("/timer"@[1] != "/about"@[1]);
    assert("/timer"@ != "/about"@);
    assert("/timer"@ != "/animation"@);
    assert("/timer"@ != "/custom-attrs"@);
    assert("/timer"@[1] != "/badge"@[1]);
    assert("/timer"@ != "/badge"@);
    assert("/timer"@ != "/component-binding"@);
    assert("/timer"@ != "/browser"@);
    assert("/timer"@ != "/camera"@);
    assert("/timer"@ != "/canvas"@);
    assert("/timer"@ != "/conditional"@);
    assert("/timer"@ != "/counter"@);
    assert("/timer"@ != "/dynamic-component"@);
    assert("/timer"@[1] != "/event"@[1]);
    assert("/timer"@ != "/event"@);
    assert("/timer"@ != "/form"@);
    assert("/timer"@ != "/hooks-timing"@);
    assert("/timer"@ != "/hooks-async"@);
    assert("/timer"@ != "/hooks-protect"@);
    assert("/timer"@ != "/hooks-i18n"@);
    assert("/timer"@ != "/game-2d"@);
    assert("/timer"@ != "/game-3d"@);
    assert("/timer"@ != "/keep-alive"@);
    assert("/timer"@ != "/lifecycle"@);
    assert("/timer"@ != "/lighting"@);
    assert("/timer"@ != "/list"@);
    assert("/timer"@[1] != "/modal"@[1]);
    assert("/timer"@ != "/modal"@);
    assert("/timer"@ != "/observer"@);
    assert("/timer"@ != "/raytrace"@);
    assert("/timer"@ != "/sse"@);
    assert("/timer"@ != "/select"@);
}

proof fn lemma_route_of_file_upload()
    ensures
        route_page_spec(page_path(Page::FileUpload)) == Page::FileUpload,
{
    reveal_strlit("/file-upload");
    reveal_strlit("/");
    reveal_strlit("/about");
    reveal_strlit("/animation");
    reveal_strlit("/custom-attrs");
    reveal_strlit("/badge");
    reveal_strlit("/component-binding");
    reveal_strlit("/browser");
    reveal_strlit("/camera");
    reveal_strlit("/canvas");
    reveal_strlit("/conditional");
    reveal_strlit("/counter");
    reveal_strlit("/dynamic-component");
    reveal_strlit("/event");
    reveal_strlit("/form");
    reveal_strlit("/hooks-timing");
    reveal_strlit("/hooks-async");
    reveal_strlit("/hooks-protect");
    reveal_strlit("/hooks-i18n");
    reveal_strlit("/game-2d");
    reveal_strlit("/game-3d");
    reveal_strlit("/keep-alive");
    reveal_strlit("/lifecycle");
    reveal_strlit("/lighting");
    reveal_strlit("/list");
    reveal_strlit("/modal");
    reveal_strlit("/observer");
    reveal_strlit("/raytrace");
    reveal_strlit("/sse");
    reveal_strlit("/select");
    reveal_strlit("/timer");
    assert(page_path(Page::FileUpload) == "/file-upload"@);
    assert("/file-upload"@ != "/"@);
    assert("/file-upload"@ != "/about"@);
    assert("/file-upload"@ != "/animation"@);
    assert("/file-upload"@ != "/custom-attrs"@);
    assert("/file-upload"@ != "/badge"@);
    assert("/file-upload"@ != "/component-binding"@);
    assert("/file-upload"@ != "/browser"@);
    assert("/file-upload"@ != "/camera"@);
    assert("/file-upload"@ != "/canvas"@);
    assert("/file-upload"@[1] != "/conditional"@[1]);
    assert("/file-upload"@ != "/conditional"@);
    assert("/file-upload"@ != "/counter"@);
    assert("/file-upload"@ != "/dynamic-component"@);
    assert("/file-upload"@ != "/event"@);
    assert("/file-upload"@ != "/form"@);
    assert("/file-upload"@ != "/hooks-timing"@);
    assert("/file-upload"@[1] != "/hooks-async"@[1]);
    assert("/file-upload"@ != "/hooks-async"@);
    assert("/file-upload"@ != "/hooks-protect"@);
    assert("/file-upload"@ != "/hooks-i18n"@);
    assert("/file-upload"@ != "/game-2d"@);
    assert("/file-upload"@ != "/game-3d"@);
    assert("/file-upload"@ != "/keep-alive"@);
    assert("/file-upload"@ != "/lifecycle"@);
    assert("/file-upload"@ != "/lighting"@);
    assert("/file-upload"@ != "/list"@);
    assert("/file-upload"@ != "/modal"@);
    assert("/file-upload"@ != "/observer"@);
    assert("/file-upload"@ != "/raytrace"@);
    assert("/file-upload"@ != "/sse"@);
    assert("/file-upload"@ != "/select"@);
    assert("/file-upload"@ != "/timer"@);
}

proof fn lemma_route_of_virtual_list()
    ensures
        route_page_spec(page_path(Page::VirtualList)) == Page::VirtualList,
{
    reveal_strlit("/virtual-list");
    reveal_strlit("/");
    reveal_strlit("/about");
    reveal_strlit("/animation");
    reveal_strlit("/custom-attrs");
    reveal_strlit("/badge");
    reveal_strlit("/component-binding");
    reveal_strlit("/browser");
    reveal_strlit("/camera");
    reveal_strlit("/canvas");
    reveal_strlit("/conditional");
    reveal_strlit("/counter");
    reveal_strlit("/dynamic-component");
    reveal_strlit("/event");
    reveal_strlit("/form");
    reveal_strlit("/hooks-timing");
    reveal_strlit("/hooks-async");
    reveal_strlit("/hooks-protect");
    reveal_strlit("/hooks-i18n");
    reveal_strlit("/game-2d");
    reveal_strlit("/game-3d");
    reveal_strlit("/keep-alive");
    reveal_strlit("/lifecycle");
    reveal_strlit("/lighting");
    reveal_strlit("/list");
    reveal_strlit("/modal");
    reveal_strlit("/observer");
    reveal_strlit("/raytrace");
    reveal_strlit("/sse");
    reveal_strlit("/select");
    reveal_strlit("/timer");
    reveal_strlit("/file-upload");
    assert(page_path(Page::VirtualList) == "/virtual-list"@);
    assert("/virtual-list"@ != "/"@);
    assert("/virtual-list"@ != "/about"@);
    assert("/virtual-list"@ != "/animation"@);
    assert("/virtual-list"@[1] != "/custom-attrs"@[1]);
    assert("/virtual-list"@ != "/custom-attrs"@);
    assert("/virtual-list"@ != "/badge"@);
    assert("/virtual-list"@ != "/component-binding"@);
    assert("/virtual-list"@ != "/browser"@);
    assert("/virtual-list"@ != "/camera"@);
    assert("/virtual-list"@ != "/canvas"@);
    assert("/virtual-list"@ != "/conditional"@);
    assert("/virtual-list"@ != "/counter"@);
    assert("/virtual-list"@ != "/dynamic-component"@);
    assert("/virtual-list"@ != "/event"@);
    assert("/virtual-list"@ != "/form"@);
    assert("/virtual-list"@[1] != "/hooks-timing"@[1]);
    assert("/virtual-list"@ != "/hooks-timing"@);
    assert("/virtual-list"@ != "/hooks-async"@);
    assert("/virtual-list"@ != "/hooks-protect"@);
    assert("/virtual-list"@ != "/hooks-i18n"@);
    assert("/virtual-list"@ != "/game-2d"@);
    assert("/virtual-list"@ != "/game-3d"@);
    assert("/virtual-list"@ != "/keep-alive"@);
    assert("/virtual-list"@ != "/lifecycle"@);
    assert("/virtual-list"@ != "/lighting"@);
    assert("/virtual-list"@ != "/list"@);
    assert("/virtual-list"@ != "/modal"@);
    assert("/virtual-list"@ != "/observer"@);
    assert("/virtual-list"@ != "/raytrace"@);
    assert("/virtual-list"@ != "/sse"@);
    assert("/virtual-list"@ != "/select"@);
    assert("/virtual-list"@ != "/timer"@);
    assert("/virtual-list"@ != "/file-upload"@);
}

proof fn lemma_route_of_websocket()
    ensures
        route_page_spec(page_path(Page::Websocket)) == Page::Websocket,
{
    reveal_strlit("/websocket");
    reveal_strlit("/");
    reveal_strlit("/about");
    reveal_strlit("/animation");
    reveal_strlit("/custom-attrs");
    reveal_strlit("/badge");
    reveal_strlit("/component-binding");
    reveal_strlit("/browser");
    reveal_strlit("/camera");
    reveal_strlit("/canvas");
    reveal_strlit("/conditional");
    reveal_strlit("/counter");
    reveal_strlit("/dynamic-component");
    reveal_strlit("/event");
    reveal_strlit("/form");
    reveal_strlit("/hooks-timing");
    reveal_strlit("/hooks-async");
    reveal_strlit("/hooks-protect");
    reveal_strlit("/hooks-i18n");
    reveal_strlit("/game-2d");
    reveal_strlit("/game-3d");
    reveal_strlit("/keep-alive");
    reveal_strlit("/lifecycle");
    reveal_strlit("/lighting");
    reveal_strlit("/list");
    reveal_strlit("/modal");
    reveal_strlit("/observer");
    reveal_strlit("/raytrace");
    reveal_strlit("/sse");
    reveal_strlit("/select");
    reveal_strlit("/timer");
    reveal_strlit("/file-upload");
    reveal_strlit("/virtual-list");
    assert(page_path(Page::Websocket) == "/websocket"@);
    assert("/websocket"@ != "/"@);
    assert("/websocket"@ != "/about"@);
    assert("/websocket"@[1] != "/animation"@[1]);
    assert("/websocket"@ != "/animation"@);
    assert("/websocket"@ != "/custom-attrs"@);
    assert("/websocket"@ != "/badge"@);
    assert("/websocket"@ != "/component-binding"@);
    assert("/websocket"@ != "/browser"@);
    assert("/websocket"@ != "/camera"@);
    assert("/websocket"@ != "/canvas"@);
    assert("/websocket"@ != "/conditional"@);
    assert("/websocket"@ != "/counter"@);
    assert("/websocket"@ != "/dynamic-component"@);
    assert("/websocket"@ != "/event"@);
    assert("/websocket"@ != "/form"@);
    assert("/websocket"@ != "/hooks-timing"@);
    assert("/websocket"@ != "/hooks-async"@);
    assert("/websocket"@ != "/hooks-protect"@);
    assert("/websocket"@ != "/hooks-i18n"@);
    assert("/websocket"@ != "/game-2d"@);
    assert("/websocket"@ != "/game-3d"@);
    assert("/websocket"@ != "/keep-alive"@);
    assert("/websocket"@[1] != "/lifecycle"@[1]);
    assert("/websocket"@ != "/lifecycle"@);
    assert("/websocket"@ != "/lighting"@);
    assert("/websocket"@ != "/list"@);
    assert("/websocket"@ != "/modal"@);
    assert("/websocket"@ != "/observer"@);
    assert("/websocket"@ != "/raytrace"@);
    assert("/websocket"@ != "/sse"@);
    assert("/websocket"@ != "/select"@);
    assert("/websocket"@ != "/timer"@);
    assert("/websocket"@ != "/file-upload"@);
    assert("/websocket"@ != "/virtual-list"@);
}

/// Every page is shown by its own path, and the root path shows the about
/// page: no two pages share a route.
pub proof fn law_each_page_has_its_route(p: Page)
    ensures
        p != Page::NotFound ==> route_page_spec(page_path(p)) == p,
        route_page_spec("/"@) == Page::About,
{
    match p {
        Page::About => lemma_route_of_about(),
        Page::Animation => lemma_route_of_animation(),
        Page::CustomAttrs => lemma_route_of_custom_attrs(),
        Page::Badge => lemma_route_of_badge(),
        Page::ComponentBinding => lemma_route_of_component_binding(),
        Page::Browser => lemma_route_of_browser(),
        Page::Camera => lemma_route_of_camera(),
        Page::Canvas => lemma_route_of_canvas(),
        Page::Conditional => lemma_route_of_conditional(),
        Page::Counter => lemma_route_of_counter(),
        Page::DynamicComponent => lemma_route_of_dynamic_component(),
        Page::Event => lemma_route_of_event(),
        Page::Form => lemma_route_of_form(),
        Page::HooksTiming => lemma_route_of_hooks_timing(),
        Page::HooksAsync => lemma_route_of_hooks_async(),
        Page::HooksProtect => lemma_route_of_hooks_protect(),
        Page::HooksI18n => lemma_route_of_hooks_i18n(),
        Page::Game2D => lemma_route_of_game2d(),
        Page::Game3D => lemma_route_of_game3d(),
        Page::KeepAlive => lemma_route_of_keep_alive(),
        Page::Lifecycle => lemma_route_of_lifecycle(),
        Page::Lighting => lemma_route_of_lighting(),
        Page::List => lemma_route_of_list(),
        Page::Modal => lemma_route_of_modal(),
        Page::Observer => lemma_route_of_observer(),
        Page::Raytrace => lemma_route_of_raytrace(),
        Page::Sse => lemma_route_of_sse(),
        Page::Select => lemma_route_of_select(),
        Page::Timer => lemma_route_of_timer(),
        Page::FileUpload => lemma_route_of_file_upload(),
        Page::VirtualList => lemma_route_of_virtual_list(),
        Page::Websocket => lemma_route_of_websocket(),
        Page::NotFound => {},
    }
}

} // verus!
