//! Scripts of the page.
use vstd::prelude::*;

verus! {

/// The script that marks the link of the section in view in the chapter rail.
pub const CHAPTER_NAV_SCRIPT: &'static str = r##"<script>
(() => {
  const links = Array.from(document.querySelectorAll("[data-section-link]"));
  if (!links.length) return;
  const byId = new Map(links.map((link) => [link.getAttribute("data-section-link"), link]));
  const sections = Array.from(byId.keys()).map((id) => document.getElementById(id)).filter(Boolean);
  const setActive = (id) => {
    for (const link of links) {
      const active = link.getAttribute("data-section-link") === id;
      link.classList.toggle("is-active", active);
      if (active) link.setAttribute("aria-current", "location");
      else link.removeAttribute("aria-current");
    }
  };
  const update = () => {
    const y = window.scrollY + 130;
    let current = sections[0]?.id;
    for (const section of sections) {
      if (section.offsetTop <= y) current = section.id;
      else break;
    }
    if (current) setActive(current);
  };
  update();
  window.setTimeout(update, 0);
  window.setTimeout(update, 150);
  document.addEventListener("scroll", update, { passive: true });
  window.addEventListener("resize", update);
  window.addEventListener("hashchange", update);
})();
</script>
"##;

/// The script that opens and closes the citation panel of a chapter with an animation.
pub const CHAPTER_CITATION_SCRIPT: &'static str = r#"<script>
(() => {
  const reduceMotion = window.matchMedia("(prefers-reduced-motion: reduce)").matches;
  for (const details of document.querySelectorAll(".chapter-citation-details")) {
    const summary = details.querySelector("summary");
    const panel = details.querySelector("pre");
    if (!summary || !panel) continue;

    const finish = () => {
      details.classList.remove("is-animating");
      panel.style.height = "";
      panel.style.opacity = "";
      panel.style.marginTop = "";
      panel.style.paddingTop = "";
      panel.style.paddingBottom = "";
      panel.style.overflow = "";
    };

    const afterHeight = (callback) => {
      const done = (event) => {
        if (event.propertyName !== "height") return;
        panel.removeEventListener("transitionend", done);
        window.clearTimeout(fallback);
        callback();
      };
      const fallback = window.setTimeout(() => {
        panel.removeEventListener("transitionend", done);
        callback();
      }, 360);
      panel.addEventListener("transitionend", done);
    };

    summary.addEventListener("click", (event) => {
      event.preventDefault();
      if (reduceMotion) {
        details.open = !details.open;
        return;
      }

      panel.getAnimations().forEach((animation) => animation.cancel());
      details.classList.add("is-animating");

      if (!details.open) {
        details.open = true;
        const endHeight = panel.scrollHeight;
        panel.style.height = "0px";
        panel.style.opacity = "0";
        panel.style.marginTop = "0px";
        panel.style.paddingTop = "0px";
        panel.style.paddingBottom = "0px";
        panel.style.overflow = "hidden";
        panel.offsetHeight;
        panel.style.height = `${endHeight}px`;
        panel.style.opacity = "1";
        panel.style.marginTop = "";
        panel.style.paddingTop = "";
        panel.style.paddingBottom = "";
        afterHeight(finish);
      } else {
        panel.style.height = `${panel.scrollHeight}px`;
        panel.style.opacity = "1";
        panel.style.overflow = "hidden";
        panel.offsetHeight;
        panel.style.height = "0px";
        panel.style.opacity = "0";
        panel.style.marginTop = "0px";
        panel.style.paddingTop = "0px";
        panel.style.paddingBottom = "0px";
        afterHeight(() => {
          details.open = false;
          finish();
        });
      }
    });
  }
})();
</script>
"#;

/// The script that marks equations wider than the text column.
pub const EQUATION_WIDTH_SCRIPT: &'static str = r#"<script>
(() => {
  function boxWidth(el){
    if (!el) return 0;
    var rect = el.getBoundingClientRect();
    return Math.max(el.scrollWidth || 0, rect.width || 0);
  }
  function maxWidth(nodes){
    return nodes.reduce(function(max, node){ return Math.max(max, boxWidth(node)); }, 0);
  }
  function equationNeededWidth(eq){
    var style = window.getComputedStyle(eq);
    var columnGap = parseFloat(style.columnGap) || 0;
    var gap = 12;
    if (eq.classList.contains("equation-aligned")) {
      var left = maxWidth(Array.from(eq.querySelectorAll(".equation-align-left")));
      var right = maxWidth(Array.from(eq.querySelectorAll(".equation-align-right")));
      var full = maxWidth(Array.from(eq.querySelectorAll(".equation-align-full")));
      var eqno = maxWidth(Array.from(eq.querySelectorAll(".eqno")));
      var aligned = left + right + columnGap + (eqno ? eqno + columnGap : 0);
      return Math.max(full, aligned, eq.scrollWidth || 0);
    }
    var rows = Array.from(eq.querySelectorAll(".equation-line"));
    if (!rows.length) rows = Array.from(eq.querySelectorAll(".typst-frame"));
    var rowWidth = maxWidth(rows);
    var math = maxWidth(Array.from(eq.querySelectorAll(".equation-math, .equation-align-full, .typst-frame")));
    var eqno = maxWidth(Array.from(eq.querySelectorAll(".eqno")));
    return Math.max(rowWidth, math + (eqno ? eqno + gap : 0), eq.scrollWidth || 0);
  }
  function markOverwideEquations(){
    document.querySelectorAll(".equation").forEach(function(eq){
      eq.classList.remove("is-overwide");
      var available = eq.clientWidth;
      var needed = equationNeededWidth(eq);
      if (needed > available + 2) eq.classList.add("is-overwide");
    });
  }
  window.markOverwideEquations = markOverwideEquations;
  window.addEventListener("resize", markOverwideEquations);
  if (document.fonts && document.fonts.ready) document.fonts.ready.then(markOverwideEquations);
  window.setTimeout(markOverwideEquations, 0);
  window.setTimeout(markOverwideEquations, 80);
  window.setTimeout(markOverwideEquations, 300);
})();
</script>
"#;

/// The script that scrolls to the target of the address's fragment once the layout has settled.
pub const SETTLED_HASH_SCROLL_SCRIPT: &'static str = r#"<script>
(() => {
  let version = 0;

  function hashTarget(){
    const raw = window.location.hash ? window.location.hash.slice(1) : "";
    if (!raw) return null;
    try {
      return document.getElementById(decodeURIComponent(raw));
    } catch (_) {
      return document.getElementById(raw);
    }
  }

  function anchorOffset(){
    const value = window.getComputedStyle(document.documentElement).getPropertyValue("--anchor-offset");
    return parseFloat(value) || 0;
  }

  function targetDistance(target){
    return target.getBoundingClientRect().top - anchorOffset();
  }

  function scrollToTarget(target){
    const top = target.getBoundingClientRect().top + window.pageYOffset - anchorOffset();
    const y = Math.max(0, top);
    try {
      window.scrollTo({ top: y, left: 0, behavior: "smooth" });
    } catch (_) {
      window.scrollTo(0, y);
    }
  }

  function afterLoad(){
    if (document.readyState === "complete") return Promise.resolve();
    return new Promise(function(resolve){
      window.addEventListener("load", resolve, { once: true });
    });
  }

  function afterFonts(){
    if (document.fonts && document.fonts.ready) {
      return document.fonts.ready.catch(function(){});
    }
    return Promise.resolve();
  }

  function afterStableLayout(callback){
    let lastHeight = -1;
    let stableFrames = 0;
    let frames = 0;
    function tick(){
      const height = document.documentElement.scrollHeight;
      if (height === lastHeight) stableFrames += 1;
      else {
        stableFrames = 0;
        lastHeight = height;
      }
      frames += 1;
      if (stableFrames >= 2 || frames >= 24) callback();
      else window.requestAnimationFrame(tick);
    }
    window.requestAnimationFrame(tick);
  }

  function scheduleHashScroll(){
    const target = hashTarget();
    if (!target) return;
    const current = ++version;
    Promise.all([afterLoad(), afterFonts()]).then(function(){
      afterStableLayout(function(){
        if (current !== version) return;
        const target = hashTarget();
        if (!target) return;
        scrollToTarget(target);
        window.setTimeout(function(){
          if (current === version) {
            const target = hashTarget();
            if (target && Math.abs(targetDistance(target)) > 1) scrollToTarget(target);
          }
        }, 160);
      });
    });
  }

  scheduleHashScroll();
  window.addEventListener("hashchange", scheduleHashScroll);
})();
</script>
"#;

/// The script that marks the link of the section in view in the chapter rail.
pub fn chapter_nav_script() -> (res: &'static str)
    ensures
        res@ == CHAPTER_NAV_SCRIPT@,
{
    CHAPTER_NAV_SCRIPT
}

/// The script that opens and closes the citation panel of a chapter with an animation.
pub fn chapter_citation_script() -> (res: &'static str)
    ensures
        res@ == CHAPTER_CITATION_SCRIPT@,
{
    CHAPTER_CITATION_SCRIPT
}

/// The script that marks equations wider than the text column.
pub fn equation_width_script() -> (res: &'static str)
    ensures
        res@ == EQUATION_WIDTH_SCRIPT@,
{
    EQUATION_WIDTH_SCRIPT
}

/// The script that scrolls to the target of the address's fragment once the layout has settled.
pub fn settled_hash_scroll_script() -> (res: &'static str)
    ensures
        res@ == SETTLED_HASH_SCROLL_SCRIPT@,
{
    SETTLED_HASH_SCROLL_SCRIPT
}

} // verus!
