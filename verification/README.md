# termwindow

The drawing decisions of a terminal window, verified with Verus.

* `src/` is the verified library. It takes the state of a window as plain values and
  plans its next frame: which vertex buffers are drawn to which texture, in which
  order post-processing shaders run, what is kept for the next frame, and what shaders
  are told about time and cursor. It also tracks the cursor's last moves.
* `app/` performs such plans with `wgpu` and `glium`. It holds the GPU objects, and
  what is computed in floating point.
* `tests/` runs the library on concrete values.

What is trusted is listed in `src/clock.rs`: three functions of the standard library's
clock.
